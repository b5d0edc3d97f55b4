use eye_cameras::hand_tracking_gate::{
    ControllerMotion, FocusVisionGate, GateAction, HandJointsPoll, HandTrackingGate, Platform,
    Pose, Skeleton, StillnessDetector, TrackersState,
};

const SECOND: u64 = 1_000_000_000;

fn pose(x: u32) -> Pose {
    Pose { orientation: [0, 0, 0, 1.0f32.to_bits()], position: [x, 0, 0] }
}

fn busy() -> [Option<ControllerMotion>; 2] {
    let motion = ControllerMotion { pose: pose(1), moved: true };
    [Some(motion), Some(motion)]
}

fn resting() -> [Option<ControllerMotion>; 2] {
    let motion = ControllerMotion { pose: pose(1), moved: false };
    [Some(motion), Some(motion)]
}

fn skeletons(x: u32) -> [Option<Skeleton>; 2] {
    [Some([pose(x); 26]), None]
}

fn focus_vision(now: u64) -> FocusVisionGate {
    match HandTrackingGate::new(Platform::FocusVision, true, now) {
        HandTrackingGate::FocusVision(gate) => *gate,
        HandTrackingGate::Passthrough => panic!("pass-through on the Focus Vision"),
    }
}

fn released_gate(now: u64) -> FocusVisionGate {
    let mut gate = focus_vision(now);
    assert_eq!(gate.update(busy(), now), GateAction::Nothing);
    assert_eq!(gate.update(busy(), now + 10 * SECOND), GateAction::ProbeCreation);
    assert_eq!(gate.probed(true), GateAction::ReleaseTrackers);
    gate.released();
    gate
}

#[test]
fn other_platforms_pass_through() {
    let mut gates = [
        HandTrackingGate::new(Platform::Other, true, 0),
        HandTrackingGate::new(Platform::FocusVision, false, 0),
    ];
    for gate in &mut gates {
        assert!(matches!(gate, HandTrackingGate::Passthrough));
        for _ in 0..3 {
            assert_eq!(gate.joints_poll(0), HandJointsPoll::Locate);
        }
        assert_eq!(gate.skeletons(HandJointsPoll::Skip, skeletons(4)), skeletons(4));
        assert_eq!(gate.update(busy(), 0), GateAction::Nothing);
        assert_eq!(gate.update(busy(), 100 * SECOND), GateAction::Nothing);
    }
}

#[test]
fn identity_pose_is_that_of_floats() {
    let identity = Pose::identity();
    assert_eq!(identity.orientation.map(f32::from_bits), [0.0, 0.0, 0.0, 1.0]);
    assert_eq!(identity.position.map(f32::from_bits), [0.0, 0.0, 0.0]);
    assert_eq!(
        identity.orientation,
        glam::Quat::default().to_array().map(f32::to_bits)
    );
    assert_eq!(identity.position, glam::Vec3::default().to_array().map(f32::to_bits));
}

#[test]
fn stillness() {
    let mut detector = StillnessDetector::new(100);
    assert_eq!(detector.anchor, Pose::identity());
    assert_eq!(detector.update(ControllerMotion { pose: pose(1), moved: false }, 150), 50);
    assert_eq!(detector.anchor, Pose::identity());
    assert_eq!(detector.update(ControllerMotion { pose: pose(2), moved: true }, 160), 0);
    assert_eq!(detector.anchor, pose(2));
    assert_eq!(detector.update(ControllerMotion { pose: pose(3), moved: false }, 190), 30);
    assert_eq!(detector.update(ControllerMotion { pose: pose(3), moved: false }, 150), 0);
}

#[test]
fn joints_are_polled_at_60_hertz() {
    let mut gate = HandTrackingGate::new(Platform::FocusVision, true, 1000);
    assert_eq!(gate.joints_poll(1000), HandJointsPoll::Locate);
    assert_eq!(gate.joints_poll(1000), HandJointsPoll::Skip);
    assert_eq!(gate.joints_poll(1000 + 16_666_999), HandJointsPoll::Skip);
    assert_eq!(gate.joints_poll(1000 + 16_667_000), HandJointsPoll::Locate);
    // late by less than an interval: the next poll keeps the rhythm
    assert_eq!(gate.joints_poll(1000 + 2 * 16_667_000 + 5), HandJointsPoll::Locate);
    assert_eq!(gate.joints_poll(1000 + 3 * 16_667_000), HandJointsPoll::Locate);
    // after a stall there is no burst
    assert_eq!(gate.joints_poll(10 * SECOND), HandJointsPoll::Locate);
    assert_eq!(gate.joints_poll(10 * SECOND), HandJointsPoll::Skip);
    assert_eq!(gate.joints_poll(10 * SECOND + 16_667_000), HandJointsPoll::Locate);
}

#[test]
fn last_located_skeletons_are_sent_again() {
    let mut gate = HandTrackingGate::new(Platform::FocusVision, true, 0);
    assert_eq!(gate.skeletons(HandJointsPoll::Skip, skeletons(9)), [None, None]);
    assert_eq!(gate.skeletons(HandJointsPoll::Locate, skeletons(1)), skeletons(1));
    for _ in 0..3 {
        assert_eq!(gate.skeletons(HandJointsPoll::Skip, [None, None]), skeletons(1));
    }
    assert_eq!(gate.skeletons(HandJointsPoll::Locate, skeletons(2)), skeletons(2));
    assert_eq!(gate.skeletons(HandJointsPoll::Skip, [None, None]), skeletons(2));
}

#[test]
fn busy_controllers_release_the_trackers() {
    let mut gate = HandTrackingGate::new(Platform::FocusVision, true, 0);
    gate.skeletons(HandJointsPoll::Locate, skeletons(1));
    assert_eq!(gate.update(busy(), 5), GateAction::Nothing);
    assert_eq!(gate.update(busy(), 5 + 10 * SECOND - 1), GateAction::Nothing);
    assert_eq!(gate.update(busy(), 5 + 10 * SECOND), GateAction::ProbeCreation);
    match &mut gate {
        HandTrackingGate::FocusVision(inner) => {
            assert_eq!(inner.probed(true), GateAction::ReleaseTrackers);
            inner.released();
            assert!(inner.recreate_on_close());
        }
        HandTrackingGate::Passthrough => panic!("pass-through on the Focus Vision"),
    }
    assert_eq!(gate.joints_poll(20 * SECOND), HandJointsPoll::Skip);
    assert_eq!(gate.skeletons(HandJointsPoll::Skip, skeletons(7)), [None, None]);
}

#[test]
fn brief_pickups_release_nothing() {
    let mut gate = focus_vision(0);
    assert_eq!(gate.update(busy(), 0), GateAction::Nothing);
    assert_eq!(gate.update([None, busy()[1]], 9 * SECOND), GateAction::Nothing);
    assert_eq!(gate.update(busy(), 9 * SECOND), GateAction::Nothing);
    assert_eq!(gate.update(busy(), 18 * SECOND), GateAction::Nothing);
    assert_eq!(gate.update(busy(), 19 * SECOND), GateAction::ProbeCreation);
}

#[test]
fn second_release_needs_no_probe() {
    let mut gate = released_gate(0);
    assert_eq!(gate.update([None, None], 11 * SECOND), GateAction::CreateTrackers);
    gate.created(true, 11 * SECOND);
    assert_eq!(gate.state, TrackersState::Created { controllers_busy_since: None });
    assert_eq!(gate.next_poll, 11 * SECOND);
    assert!(!gate.recreate_on_close());
    assert_eq!(gate.update(busy(), 12 * SECOND), GateAction::Nothing);
    assert_eq!(gate.update(busy(), 22 * SECOND), GateAction::ReleaseTrackers);
}

#[test]
fn resting_controllers_bring_the_trackers_back() {
    let mut gate = released_gate(0);
    assert_eq!(gate.update(busy(), 11 * SECOND), GateAction::Nothing);
    assert_eq!(gate.update(resting(), 12 * SECOND), GateAction::Nothing);
    let one_moves = [resting()[0], busy()[1]];
    assert_eq!(gate.update(one_moves, 12 * SECOND + SECOND / 2), GateAction::Nothing);
    assert_eq!(gate.update(resting(), 14 * SECOND - 1), GateAction::Nothing);
    assert_eq!(gate.update(resting(), 14 * SECOND), GateAction::CreateTrackers);
}

#[test]
fn creation_is_retried_after_the_interval() {
    let mut gate = released_gate(0);
    assert_eq!(gate.update([None, None], 11 * SECOND), GateAction::CreateTrackers);
    gate.created(false, 11 * SECOND);
    assert_eq!(
        gate.state,
        TrackersState::Released { next_create_attempt: Some(16 * SECOND) }
    );
    assert_eq!(gate.update([None, None], 16 * SECOND - 1), GateAction::Nothing);
    assert_eq!(gate.update([None, None], 16 * SECOND), GateAction::CreateTrackers);
}

#[test]
fn trackers_that_cannot_be_recreated_are_kept() {
    let mut gate = focus_vision(0);
    gate.update(busy(), 0);
    assert_eq!(gate.update(busy(), 10 * SECOND), GateAction::ProbeCreation);
    assert_eq!(gate.probed(false), GateAction::Nothing);
    assert_eq!(gate.state, TrackersState::Pinned);
    assert!(!gate.mid_session_creation_verified);
    assert!(!gate.recreate_on_close());
    for second in 11..40 {
        assert_eq!(gate.update(busy(), second * SECOND), GateAction::Nothing);
    }
    let mut gate = HandTrackingGate::FocusVision(Box::new(gate));
    assert_eq!(gate.joints_poll(50 * SECOND), HandJointsPoll::Locate);
}
