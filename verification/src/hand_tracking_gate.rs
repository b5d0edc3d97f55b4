//! Rate-limits the hand joints polling and decides when the hand tracker objects exist.
//!
//! The HTC runtime runs its camera hand tracking pipeline for as long as hand tracker objects
//! exist, so they are destroyed while both controllers are in use. Every platform except the
//! Focus Vision gets the pass-through variant: joints located on every tick and trackers never
//! touched.
//!
//! Moments and intervals are in nanoseconds, moments since an origin of the caller's choice.
use vstd::prelude::*;

verus! {

/// Hand tracking on the Focus Vision runs at 60Hz, polling faster only returns duplicate samples
pub const HAND_JOINTS_POLL_INTERVAL: u64 = 16_667_000;

/// Both controllers must be in use for this long before the hand trackers are destroyed
/// (hysteresis against brief controller pickups)
pub const HAND_TRACKERS_RELEASE_DELAY: u64 = 10_000_000_000;

/// Controllers resting still for this long were probably put down: recreate the trackers now so
/// that the runtime pipeline is warm by the time the controllers go idle and the hands take over
pub const CONTROLLERS_STILL_PREWARM_DELAY: u64 = 1_500_000_000;

/// The pause after a failed attempt to create the hand trackers.
pub const HAND_TRACKERS_CREATE_RETRY_INTERVAL: u64 = 5_000_000_000;

#[derive(Clone, Copy, PartialEq, Eq, Structural, Debug)]
pub enum Platform {
    FocusVision,
    Other,
}

/// Whether the hand joints are to be located on this tick.
#[derive(Clone, Copy, PartialEq, Eq, Structural, Debug)]
pub enum HandJointsPoll {
    Locate,
    Skip,
}

/// A pose, its 32-bit floats as their bits. Orientation is a quaternion in the order x, y, z, w.
#[derive(Clone, Copy, PartialEq, Eq, Debug)]
pub struct Pose {
    pub orientation: [u32; 4],
    pub position: [u32; 3],
}

/// The bits of 1.0.
pub const ONE_BITS: u32 = 0x3f80_0000;

impl Pose {
    /// No rotation, at the origin.
    pub fn identity() -> (pose: Pose)
        ensures
            pose.orientation@ == seq![0u32, 0u32, 0u32, ONE_BITS],
            pose.position@ == seq![0u32, 0u32, 0u32],
    {
        Pose { orientation: [0, 0, 0, ONE_BITS], position: [0, 0, 0] }
    }
}

/// The joints of a hand.
pub type Skeleton = [Pose; 26];

/// A controller in use: where it is, and whether that is away from where it was last held still.
#[derive(Clone, Copy, PartialEq, Eq, Debug)]
pub struct ControllerMotion {
    pub pose: Pose,
    pub moved: bool,
}

/// `later - earlier`, or zero where that is negative.
pub open spec fn elapsed(earlier: int, later: int) -> int {
    if later > earlier {
        later - earlier
    } else {
        0
    }
}

fn time_since(earlier: u64, now: u64) -> (duration: u64)
    ensures
        duration == elapsed(earlier as int, now as int),
{
    if now > earlier {
        now - earlier
    } else {
        0
    }
}

#[derive(Clone, Copy)]
pub struct StillnessDetector {
    pub anchor: Pose,
    pub still_since: u64,
}

impl StillnessDetector {
    pub fn new(now: u64) -> (detector: Self)
        ensures
            detector.anchor.orientation@ == seq![0u32, 0u32, 0u32, ONE_BITS],
            detector.anchor.position@ == seq![0u32, 0u32, 0u32],
            detector.still_since == now,
    {
        StillnessDetector { anchor: Pose::identity(), still_since: now }
    }

    /// With the motion taken in: one that moved is the new anchor.
    pub open spec fn updated(self, motion: ControllerMotion, now: u64) -> StillnessDetector {
        if motion.moved {
            StillnessDetector { anchor: motion.pose, still_since: now }
        } else {
            self
        }
    }

    /// How long the controller has been still.
    pub open spec fn still_for(self, now: u64) -> int {
        elapsed(self.still_since as int, now as int)
    }

    /// Returns for how long the pose stayed close to the anchor
    pub fn update(&mut self, motion: ControllerMotion, now: u64) -> (duration: u64)
        ensures
            *final(self) == old(self).updated(motion, now),
            duration == old(self).updated(motion, now).still_for(now),
    {
        if motion.moved {
            self.anchor = motion.pose;
            self.still_since = now;
        }
        time_since(self.still_since, now)
    }
}

#[derive(Clone, Copy, PartialEq, Eq, Structural, Debug)]
pub enum TrackersState {
    /// The hand tracker objects exist (runtime pipeline running). `controllers_busy_since` is
    /// set while both controllers are in use.
    Created { controllers_busy_since: Option<u64> },
    /// The objects were destroyed (runtime pipeline stopped)
    Released { next_create_attempt: Option<u64> },
    /// The runtime refused to create a hand tracker while the session runs: the trackers created
    /// at startup are kept for the whole session, only the poll rate limiter stays active
    Pinned,
}

/// What is to be done with the hand trackers.
#[derive(Clone, Copy, PartialEq, Eq, Structural, Debug)]
pub enum GateAction {
    Nothing,
    /// Try to create a hand tracker beside the existing ones, then call `probed`.
    ProbeCreation,
    /// Destroy the hand trackers, with the one that a probe created, then call `released`.
    ReleaseTrackers,
    /// Try to create the hand trackers, then call `created`.
    CreateTrackers,
}

impl TrackersState {
    /// The trackers exist in this state.
    pub open spec fn has_trackers(self) -> bool {
        !(self is Released)
    }

    /// Since when both controllers have been in use, if they still are at `now`.
    pub open spec fn busy_since(self, now: u64) -> u64 {
        match self {
            TrackersState::Created { controllers_busy_since: Some(since) } => since,
            _ => now,
        }
    }

    /// The controllers have been in use for long enough to release the trackers.
    pub open spec fn release_due(self, now: u64) -> bool {
        elapsed(self.busy_since(now) as int, now as int) >= HAND_TRACKERS_RELEASE_DELAY
    }

    pub open spec fn create_due(self, now: u64) -> bool {
        self matches TrackersState::Released { next_create_attempt } && (next_create_attempt
            matches Some(at) ==> now >= at)
    }

    /// What a tick asks for. `verified` says that the trackers can be created mid-session.
    pub open spec fn action(self, hands_wanted: bool, verified: bool, now: u64) -> GateAction {
        match self {
            TrackersState::Created { .. } => if hands_wanted || !self.release_due(now) {
                GateAction::Nothing
            } else if verified {
                GateAction::ReleaseTrackers
            } else {
                GateAction::ProbeCreation
            },
            TrackersState::Released { .. } => if hands_wanted && self.create_due(now) {
                GateAction::CreateTrackers
            } else {
                GateAction::Nothing
            },
            TrackersState::Pinned => GateAction::Nothing,
        }
    }

    /// The state after a tick, before the outcome of the action it asks for.
    pub open spec fn ticked(self, hands_wanted: bool, now: u64) -> TrackersState {
        match self {
            TrackersState::Created { .. } => if hands_wanted {
                TrackersState::Created { controllers_busy_since: None }
            } else if self.release_due(now) {
                self
            } else {
                TrackersState::Created { controllers_busy_since: Some(self.busy_since(now)) }
            },
            _ => self,
        }
    }
}

/// What is decided on the Focus Vision.
pub struct FocusVisionGate {
    pub state: TrackersState,
    pub mid_session_creation_verified: bool,
    pub next_poll: u64,
    pub cached_skeletons: [Option<Skeleton>; 2],
    pub left_stillness: StillnessDetector,
    pub right_stillness: StillnessDetector,
}

impl FocusVisionGate {
    pub open spec fn left_after(
        self,
        controllers: [Option<ControllerMotion>; 2],
        now: u64,
    ) -> StillnessDetector {
        if controllers[0] is Some && controllers[1] is Some {
            self.left_stillness.updated(controllers[0]->0, now)
        } else {
            self.left_stillness
        }
    }

    pub open spec fn right_after(
        self,
        controllers: [Option<ControllerMotion>; 2],
        now: u64,
    ) -> StillnessDetector {
        if controllers[0] is Some && controllers[1] is Some {
            self.right_stillness.updated(controllers[1]->0, now)
        } else {
            self.right_stillness
        }
    }

    /// The hands are wanted unless both controllers are in use and one of them moved a short
    /// time ago.
    pub open spec fn hands_wanted(
        self,
        controllers: [Option<ControllerMotion>; 2],
        now: u64,
    ) -> bool {
        controllers[0] is Some && controllers[1] is Some ==> {
            &&& self.left_after(controllers, now).still_for(now) >= CONTROLLERS_STILL_PREWARM_DELAY
            &&& self.right_after(controllers, now).still_for(now)
                >= CONTROLLERS_STILL_PREWARM_DELAY
        }
    }

    /// Takes in the controllers that are in use. Returns what is to be done with the trackers.
    pub fn update(&mut self, controllers: [Option<ControllerMotion>; 2], now: u64) -> (action:
        GateAction)
        ensures
            action == old(self).state.action(
                old(self).hands_wanted(controllers, now),
                old(self).mid_session_creation_verified,
                now,
            ),
            *final(self) == (FocusVisionGate {
                state: old(self).state.ticked(old(self).hands_wanted(controllers, now), now),
                left_stillness: old(self).left_after(controllers, now),
                right_stillness: old(self).right_after(controllers, now),
                ..*old(self)
            }),
    {
        let hands_wanted: bool = match (controllers[0], controllers[1]) {
            (Some(left), Some(right)) => {
                let left_still: bool = self.left_stillness.update(left, now)
                    >= CONTROLLERS_STILL_PREWARM_DELAY;
                let right_still: bool = self.right_stillness.update(right, now)
                    >= CONTROLLERS_STILL_PREWARM_DELAY;
                left_still && right_still
            },
            // At least one controller is idle or off: the runtime tracks that hand
            _ => true,
        };
        match self.state {
            TrackersState::Created { controllers_busy_since } => {
                if hands_wanted {
                    self.state = TrackersState::Created { controllers_busy_since: None };
                    GateAction::Nothing
                } else {
                    let busy_since: u64 = match controllers_busy_since {
                        Some(since) => since,
                        None => now,
                    };
                    if time_since(busy_since, now) >= HAND_TRACKERS_RELEASE_DELAY {
                        if self.mid_session_creation_verified {
                            GateAction::ReleaseTrackers
                        } else {
                            GateAction::ProbeCreation
                        }
                    } else {
                        self.state =
                        TrackersState::Created { controllers_busy_since: Some(busy_since) };
                        GateAction::Nothing
                    }
                }
            },
            TrackersState::Released { next_create_attempt } => {
                let attempt_due: bool = match next_create_attempt {
                    Some(at) => now >= at,
                    None => true,
                };
                if hands_wanted && attempt_due {
                    GateAction::CreateTrackers
                } else {
                    GateAction::Nothing
                }
            },
            TrackersState::Pinned => GateAction::Nothing,
        }
    }

    /// After it was tried whether a tracker can be created mid-session.
    pub open spec fn after_probe(self, can_create: bool) -> FocusVisionGate {
        if can_create {
            FocusVisionGate { mid_session_creation_verified: true, ..self }
        } else {
            FocusVisionGate { state: TrackersState::Pinned, ..self }
        }
    }

    /// After the trackers were destroyed.
    pub open spec fn after_release(self) -> FocusVisionGate {
        FocusVisionGate {
            state: TrackersState::Released { next_create_attempt: None },
            cached_skeletons: [None, None],
            ..self
        }
    }

    /// After it was tried to create the trackers.
    pub open spec fn after_creation(self, success: bool, now: u64) -> FocusVisionGate {
        if success {
            FocusVisionGate {
                state: TrackersState::Created { controllers_busy_since: None },
                next_poll: now,
                ..self
            }
        } else {
            FocusVisionGate {
                state: TrackersState::Released {
                    next_create_attempt: Some((now + HAND_TRACKERS_CREATE_RETRY_INTERVAL) as u64),
                },
                ..self
            }
        }
    }

    /// After an action was carried out, and the release that a successful probe asks for.
    pub open spec fn after_action(
        self,
        action: GateAction,
        can_create: bool,
        success: bool,
        now: u64,
    ) -> FocusVisionGate {
        match action {
            GateAction::Nothing => self,
            GateAction::ProbeCreation => if can_create {
                self.after_probe(can_create).after_release()
            } else {
                self.after_probe(can_create)
            },
            GateAction::ReleaseTrackers => self.after_release(),
            GateAction::CreateTrackers => self.after_creation(success, now),
        }
    }

    /// Before the trackers created at startup are destroyed, it was tried whether they can be
    /// recreated later. Where they cannot, they are kept.
    pub fn probed(&mut self, can_create: bool) -> (action: GateAction)
        ensures
            action == if can_create {
                GateAction::ReleaseTrackers
            } else {
                GateAction::Nothing
            },
            *final(self) == old(self).after_probe(can_create),
    {
        if can_create {
            self.mid_session_creation_verified = true;
            GateAction::ReleaseTrackers
        } else {
            self.state = TrackersState::Pinned;
            GateAction::Nothing
        }
    }

    /// The trackers were destroyed.
    pub fn released(&mut self)
        ensures
            *final(self) == old(self).after_release(),
    {
        self.cached_skeletons = [None, None];
        self.state = TrackersState::Released { next_create_attempt: None };
    }

    /// It was tried to create the trackers, on the tick at `now`.
    pub fn created(&mut self, success: bool, now: u64)
        requires
            now + HAND_TRACKERS_CREATE_RETRY_INTERVAL <= u64::MAX,
        ensures
            *final(self) == old(self).after_creation(success, now),
    {
        if success {
            self.next_poll = now;
            self.state = TrackersState::Created { controllers_busy_since: None };
        } else {
            self.state =
            TrackersState::Released {
                next_create_attempt: Some(now + HAND_TRACKERS_CREATE_RETRY_INTERVAL),
            };
        }
    }

    /// Whether the trackers are to be recreated at the end of the stream: the lobby expects them
    /// to exist whenever the stream input thread is not running.
    pub fn recreate_on_close(&self) -> (b: bool)
        ensures
            b == !self.state.has_trackers(),
            b == (self.state is Released),
    {
        match self.state {
            TrackersState::Released { .. } => true,
            _ => false,
        }
    }
}

/// When the joints may be located again, after they were at `now`: one interval after they might
/// have been, or after `now` where that has passed.
pub open spec fn next_poll_time(due: int, now: int) -> int {
    if due + HAND_JOINTS_POLL_INTERVAL < now {
        now + HAND_JOINTS_POLL_INTERVAL
    } else {
        due + HAND_JOINTS_POLL_INTERVAL
    }
}

/// Decides which ticks locate the hand joints and whether the hand trackers exist.
pub enum HandTrackingGate {
    Passthrough,
    FocusVision(Box<FocusVisionGate>),
}

impl HandTrackingGate {
    /// The joints are located on a tick at `now`.
    pub open spec fn locates(self, now: u64) -> bool {
        match self {
            HandTrackingGate::Passthrough => true,
            HandTrackingGate::FocusVision(gate) => gate.state.has_trackers() && now
                >= gate.next_poll,
        }
    }

    /// The skeletons to send on a tick.
    pub open spec fn skeletons_sent(
        self,
        joints_poll: HandJointsPoll,
        located: [Option<Skeleton>; 2],
    ) -> [Option<Skeleton>; 2] {
        match self {
            HandTrackingGate::Passthrough => located,
            HandTrackingGate::FocusVision(gate) => match joints_poll {
                HandJointsPoll::Locate => located,
                HandJointsPoll::Skip => gate.cached_skeletons,
            },
        }
    }

    /// With the skeletons that were sent on a tick kept for the next ones.
    pub open spec fn after_skeletons(
        self,
        joints_poll: HandJointsPoll,
        located: [Option<Skeleton>; 2],
    ) -> HandTrackingGate {
        match self {
            HandTrackingGate::Passthrough => self,
            HandTrackingGate::FocusVision(gate) => HandTrackingGate::FocusVision(
                Box::new(
                    FocusVisionGate {
                        cached_skeletons: self.skeletons_sent(joints_poll, located),
                        ..*gate
                    },
                ),
            ),
        }
    }

    pub fn new(platform: Platform, has_hand_trackers: bool, now: u64) -> (gate: Self)
        ensures
            gate is FocusVision <==> platform is FocusVision && has_hand_trackers,
            gate matches HandTrackingGate::FocusVision(gate) ==> {
                &&& gate.state == (TrackersState::Created { controllers_busy_since: None })
                &&& !gate.mid_session_creation_verified
                &&& gate.next_poll == now
                &&& gate.cached_skeletons == [None::<Skeleton>, None]
                &&& gate.left_stillness.still_since == now
                &&& gate.left_stillness.anchor.orientation@ == seq![0u32, 0u32, 0u32, ONE_BITS]
                &&& gate.left_stillness.anchor.position@ == seq![0u32, 0u32, 0u32]
                &&& gate.right_stillness.still_since == now
                &&& gate.right_stillness.anchor.orientation@ == seq![0u32, 0u32, 0u32, ONE_BITS]
                &&& gate.right_stillness.anchor.position@ == seq![0u32, 0u32, 0u32]
            },
    {
        if platform != Platform::FocusVision || !has_hand_trackers {
            return HandTrackingGate::Passthrough;
        }
        HandTrackingGate::FocusVision(
            Box::new(
                FocusVisionGate {
                    state: TrackersState::Created { controllers_busy_since: None },
                    mid_session_creation_verified: false,
                    next_poll: now,
                    cached_skeletons: [None, None],
                    left_stillness: StillnessDetector::new(now),
                    right_stillness: StillnessDetector::new(now),
                },
            ),
        )
    }

    pub fn joints_poll(&mut self, now: u64) -> (poll: HandJointsPoll)
        requires
            now + HAND_JOINTS_POLL_INTERVAL <= u64::MAX,
        ensures
            poll is Locate <==> old(self).locates(now),
            match *old(self) {
                HandTrackingGate::Passthrough => *final(self) == *old(self),
                HandTrackingGate::FocusVision(gate) => *final(self)
                    == HandTrackingGate::FocusVision(
                    Box::new(
                        FocusVisionGate {
                            next_poll: if poll is Locate {
                                next_poll_time(gate.next_poll as int, now as int) as u64
                            } else {
                                gate.next_poll
                            },
                            ..*gate
                        },
                    ),
                ),
            },
    {
        match self {
            HandTrackingGate::Passthrough => HandJointsPoll::Locate,
            HandTrackingGate::FocusVision(gate) => {
                if let TrackersState::Released { .. } = gate.state {
                    return HandJointsPoll::Skip;
                }
                if now >= gate.next_poll {
                    gate.next_poll = gate.next_poll + HAND_JOINTS_POLL_INTERVAL;
                    if gate.next_poll < now {
                        // Fell behind after a stall: re-anchor instead of bursting polls
                        gate.next_poll = now + HAND_JOINTS_POLL_INTERVAL;
                    }
                    HandJointsPoll::Locate
                } else {
                    HandJointsPoll::Skip
                }
            },
        }
    }

    /// Skeletons to send this tick: the freshly located ones when polled, the last located ones
    /// otherwise. The server keys skeletons by packet timestamp, so every packet needs them.
    pub fn skeletons(
        &mut self,
        joints_poll: HandJointsPoll,
        located: [Option<Skeleton>; 2],
    ) -> (skeletons: [Option<Skeleton>; 2])
        ensures
            skeletons == old(self).skeletons_sent(joints_poll, located),
            *final(self) == old(self).after_skeletons(joints_poll, located),
    {
        match self {
            HandTrackingGate::Passthrough => located,
            HandTrackingGate::FocusVision(gate) => match joints_poll {
                HandJointsPoll::Locate => {
                    gate.cached_skeletons = located;
                    located
                },
                HandJointsPoll::Skip => gate.cached_skeletons,
            },
        }
    }

    /// Takes in the controllers that are in use. Returns what is to be done with the trackers.
    pub fn update(&mut self, controllers: [Option<ControllerMotion>; 2], now: u64) -> (action:
        GateAction)
        ensures
            match *old(self) {
                HandTrackingGate::Passthrough => action is Nothing && *final(self) == *old(self),
                HandTrackingGate::FocusVision(gate) => {
                    &&& action == gate.state.action(
                        gate.hands_wanted(controllers, now),
                        gate.mid_session_creation_verified,
                        now,
                    )
                    &&& *final(self) == HandTrackingGate::FocusVision(
                        Box::new(
                            FocusVisionGate {
                                state: gate.state.ticked(gate.hands_wanted(controllers, now), now),
                                left_stillness: gate.left_after(controllers, now),
                                right_stillness: gate.right_after(controllers, now),
                                ..*gate
                            },
                        ),
                    )
                },
            },
    {
        match self {
            HandTrackingGate::Passthrough => GateAction::Nothing,
            HandTrackingGate::FocusVision(gate) => gate.update(controllers, now),
        }
    }
}

/// Whether the trackers exist after an action, given whether they did before.
pub open spec fn trackers_after(
    exist: bool,
    action: GateAction,
    can_create: bool,
    success: bool,
) -> bool {
    match action {
        GateAction::Nothing => exist,
        GateAction::ProbeCreation => exist && !can_create,
        GateAction::ReleaseTrackers => false,
        GateAction::CreateTrackers => exist || success,
    }
}

/// The state says whether the trackers exist, after every tick and whatever comes of the action
/// that the tick asks for.
pub proof fn law_gate_knows_whether_trackers_exist(
    gate: FocusVisionGate,
    controllers: [Option<ControllerMotion>; 2],
    now: u64,
    exist: bool,
    can_create: bool,
    success: bool,
)
    requires
        exist == gate.state.has_trackers(),
    ensures
        ({
            let wanted = gate.hands_wanted(controllers, now);
            let action = gate.state.action(wanted, gate.mid_session_creation_verified, now);
            let ticked = FocusVisionGate { state: gate.state.ticked(wanted, now), ..gate };
            let settled = ticked.after_action(action, can_create, success, now);
            trackers_after(exist, action, can_create, success) == settled.state.has_trackers()
        }),
{
}

/// The trackers are destroyed only when it is known that they can be created again, and what was
/// located with them is forgotten.
pub proof fn law_trackers_are_released_only_if_recreatable(
    gate: FocusVisionGate,
    hands_wanted: bool,
    now: u64,
    can_create: bool,
    success: bool,
)
    requires
        gate.state.has_trackers(),
    ensures
        ({
            let action = gate.state.action(hands_wanted, gate.mid_session_creation_verified, now);
            let ticked = FocusVisionGate { state: gate.state.ticked(hands_wanted, now), ..gate };
            let settled = ticked.after_action(action, can_create, success, now);
            &&& gate.mid_session_creation_verified ==> settled.mid_session_creation_verified
            &&& !settled.state.has_trackers() ==> {
                &&& settled.mid_session_creation_verified
                &&& gate.mid_session_creation_verified || can_create
                &&& settled.cached_skeletons == [None::<Skeleton>, None]
            }
        }),
{
}

/// A gate whose trackers cannot be recreated never touches them again.
pub proof fn law_pinned_gate_keeps_the_trackers(
    gate: FocusVisionGate,
    hands_wanted: bool,
    now: u64,
)
    requires
        gate.state is Pinned,
    ensures
        gate.state.action(hands_wanted, gate.mid_session_creation_verified, now) is Nothing,
        gate.state.ticked(hands_wanted, now) is Pinned,
{
}

/// After a failed attempt to create the trackers the next one waits for the retry interval, and
/// then comes on the first tick on which the hands are wanted.
pub proof fn law_creation_is_retried_after_the_interval(
    gate: FocusVisionGate,
    failed_at: u64,
    hands_wanted: bool,
    now: u64,
)
    requires
        failed_at + HAND_TRACKERS_CREATE_RETRY_INTERVAL <= u64::MAX,
    ensures
        gate.after_creation(false, failed_at).state.action(
            hands_wanted,
            gate.mid_session_creation_verified,
            now,
        ) is CreateTrackers <==> hands_wanted && now >= failed_at
            + HAND_TRACKERS_CREATE_RETRY_INTERVAL,
{
}

/// Every tick has skeletons to send: those last located are sent again on all ticks until joints
/// are located the next time, and none are after the trackers were released.
pub proof fn law_last_located_skeletons_are_sent_again(
    gate: FocusVisionGate,
    located: [Option<Skeleton>; 2],
    ignored: [Option<Skeleton>; 2],
)
    ensures
        ({
            let start = HandTrackingGate::FocusVision(Box::new(gate));
            let polled = start.after_skeletons(HandJointsPoll::Locate, located);
            let skipped = polled.after_skeletons(HandJointsPoll::Skip, ignored);
            &&& start.skeletons_sent(HandJointsPoll::Locate, located) == located
            &&& polled.skeletons_sent(HandJointsPoll::Skip, ignored) == located
            &&& skipped == polled
        }),
        HandTrackingGate::FocusVision(Box::new(gate.after_release())).skeletons_sent(
            HandJointsPoll::Skip,
            ignored,
        ) == [None::<Skeleton>, None],
{
}

/// A tick: whether the hands are wanted, and when it is.
pub struct Tick {
    pub hands_wanted: bool,
    pub now: u64,
}

/// The state after the ticks, where none of them led to an action.
pub open spec fn ticked_through(start: TrackersState, ticks: Seq<Tick>) -> TrackersState
    decreases ticks.len(),
{
    if ticks.len() == 0 {
        start
    } else {
        ticked_through(start, ticks.drop_last()).ticked(
            ticks.last().hands_wanted,
            ticks.last().now,
        )
    }
}

/// The ticks from `first` on are all ticks on which the hands are not wanted.
pub open spec fn busy_from(ticks: Seq<Tick>, first: int) -> bool {
    &&& 0 <= first < ticks.len()
    &&& forall|i: int| first <= i < ticks.len() ==> !(#[trigger] ticks[i]).hands_wanted
}

proof fn lemma_busy_since(ticks: Seq<Tick>)
    ensures
        ({
            let start = TrackersState::Created { controllers_busy_since: None };
            &&& ticked_through(start, ticks) is Created
            &&& ticked_through(start, ticks) matches TrackersState::Created {
                controllers_busy_since: Some(since),
            } ==> exists|first: int|
                #[trigger] busy_from(ticks, first) && ticks[first].now == since
        }),
    decreases ticks.len(),
{
    let start = TrackersState::Created { controllers_busy_since: None };
    if ticks.len() > 0 {
        let n = ticks.len() as int;
        let before = ticks.drop_last();
        lemma_busy_since(before);
        let old_state = ticked_through(start, before);
        let new_state = ticked_through(start, ticks);
        assert(ticks.last() == ticks[n - 1]);
        if let TrackersState::Created { controllers_busy_since: Some(since) } = new_state {
            assert(!ticks[n - 1].hands_wanted);
            if let TrackersState::Created { controllers_busy_since: Some(earlier) } = old_state {
                let first = choose|first: int|
                    #[trigger] busy_from(before, first) && before[first].now == earlier;
                assert forall|i: int|
                    first <= i < n implies !(#[trigger] ticks[i]).hands_wanted by {
                    if i < n - 1 {
                        assert(before[i] == ticks[i]);
                    }
                }
                assert(before[first] == ticks[first]);
                assert(busy_from(ticks, first));
            } else {
                assert(busy_from(ticks, n - 1));
            }
        }
    }
}

/// Trackers are released only after both controllers were in use for the whole delay: from a
/// tick that lies that long back, the hands were not wanted on any tick.
pub proof fn law_release_needs_busy_controllers(ticks: Seq<Tick>, verified: bool)
    requires
        ticks.len() > 0,
        !(ticked_through(
            TrackersState::Created { controllers_busy_since: None },
            ticks.drop_last(),
        ).action(ticks.last().hands_wanted, verified, ticks.last().now) is Nothing),
    ensures
        exists|first: int|
            #[trigger] busy_from(ticks, first) && ticks.last().now - ticks[first].now
                >= HAND_TRACKERS_RELEASE_DELAY,
{
    let start = TrackersState::Created { controllers_busy_since: None };
    let n = ticks.len() as int;
    let before = ticks.drop_last();
    lemma_busy_since(before);
    assert(ticks.last() == ticks[n - 1]);
    if let TrackersState::Created { controllers_busy_since: Some(since) } = ticked_through(
        start,
        before,
    ) {
        let first = choose|first: int|
            #[trigger] busy_from(before, first) && before[first].now == since;
        assert forall|i: int| first <= i < n implies !(#[trigger] ticks[i]).hands_wanted by {
            if i < n - 1 {
                assert(before[i] == ticks[i]);
            }
        }
        assert(before[first] == ticks[first]);
        assert(busy_from(ticks, first));
    }
}

/// When the joints may be located next, after they were at `times`.
pub open spec fn poll_due_after(due: int, times: Seq<int>) -> int
    decreases times.len(),
{
    if times.len() == 0 {
        due
    } else {
        next_poll_time(poll_due_after(due, times.drop_last()), times.last())
    }
}

/// Joints are located no faster than the poll interval allows: each time waits for one interval
/// more than the one before, a stall is not made up for, and the next time is due at most one
/// interval after the last.
pub proof fn law_poll_rate(due: int, times: Seq<int>)
    requires
        forall|i: int|
            0 <= i < times.len() ==> #[trigger] times[i] >= poll_due_after(due, times.take(i)),
    ensures
        poll_due_after(due, times) >= due + times.len() * HAND_JOINTS_POLL_INTERVAL,
        forall|i: int|
            0 <= i < times.len() ==> #[trigger] times[i] >= due + i * HAND_JOINTS_POLL_INTERVAL,
        times.len() > 0 ==> times.last() <= poll_due_after(due, times) <= times.last()
            + HAND_JOINTS_POLL_INTERVAL,
    decreases times.len(),
{
    if times.len() > 0 {
        let n = times.len() as int;
        let before = times.drop_last();
        assert(times.take(n - 1) =~= before);
        assert forall|i: int| 0 <= i < before.len() implies #[trigger] before[i]
            >= poll_due_after(due, before.take(i)) by {
            assert(times[i] == before[i]);
            assert(before.take(i) =~= times.take(i));
        }
        law_poll_rate(due, before);
        assert(times[n - 1] >= poll_due_after(due, before));
        assert forall|i: int| 0 <= i < n implies #[trigger] times[i] >= due + i
            * HAND_JOINTS_POLL_INTERVAL by {
            if i < n - 1 {
                assert(before[i] == times[i]);
            }
        }
    }
}

/// A controller that moved is still since that moment, at the pose it moved to. One that did not
/// move goes on resting where it was.
pub proof fn law_moving_ends_the_stillness(
    detector: StillnessDetector,
    motion: ControllerMotion,
    now: u64,
    later: u64,
)
    ensures
        motion.moved ==> {
            &&& detector.updated(motion, now).still_since == now
            &&& detector.updated(motion, now).anchor == motion.pose
            &&& detector.updated(motion, now).still_for(now) == 0
        },
        !motion.moved ==> detector.updated(motion, now) == detector,
        detector.still_since <= later ==> detector.still_for(later) == later - detector.still_since,
        detector.still_since > later ==> detector.still_for(later) == 0,
{
}

/// With both controllers in use the hands are wanted exactly if both have been resting for 1.5
/// seconds, and with one or none in use they always are.
pub proof fn law_hands_are_wanted_when_both_controllers_rest(
    gate: FocusVisionGate,
    controllers: [Option<ControllerMotion>; 2],
    now: u64,
)
    ensures
        controllers[0] is None || controllers[1] is None ==> gate.hands_wanted(controllers, now),
        controllers[0] is Some && controllers[1] is Some ==> {
            let left_moved = controllers[0]->0.moved;
            let right_moved = controllers[1]->0.moved;
            gate.hands_wanted(controllers, now) <==> {
                &&& !left_moved && now - gate.left_stillness.still_since >= 1_500_000_000
                &&& !right_moved && now - gate.right_stillness.still_since >= 1_500_000_000
            }
        },
{
}

/// Left and right make no difference: with the controllers swapped, and what is known of them, the
/// same is decided.
pub proof fn law_hands_do_not_tell_left_from_right(
    gate: FocusVisionGate,
    swapped: FocusVisionGate,
    left: Option<ControllerMotion>,
    right: Option<ControllerMotion>,
    now: u64,
)
    requires
        swapped.left_stillness == gate.right_stillness,
        swapped.right_stillness == gate.left_stillness,
    ensures
        gate.hands_wanted([left, right], now) == swapped.hands_wanted([right, left], now),
        gate.left_after([left, right], now) == swapped.right_after([right, left], now),
        gate.right_after([left, right], now) == swapped.left_after([right, left], now),
{
}

/// A tick with the controllers that are in use.
pub struct ControllerTick {
    pub controllers: [Option<ControllerMotion>; 2],
    pub now: u64,
}

/// What is known after the ticks, where nothing was done about the trackers in between.
pub open spec fn gate_after(start: FocusVisionGate, ticks: Seq<ControllerTick>) -> FocusVisionGate
    decreases ticks.len(),
{
    if ticks.len() == 0 {
        start
    } else {
        let gate = gate_after(start, ticks.drop_last());
        let tick = ticks.last();
        FocusVisionGate {
            state: gate.state.ticked(gate.hands_wanted(tick.controllers, tick.now), tick.now),
            left_stillness: gate.left_after(tick.controllers, tick.now),
            right_stillness: gate.right_after(tick.controllers, tick.now),
            ..gate
        }
    }
}

proof fn lemma_stillness_keeps_moves(start: FocusVisionGate, ticks: Seq<ControllerTick>, j: int)
    requires
        0 <= j < ticks.len(),
        ticks[j].controllers[0] is Some && ticks[j].controllers[1] is Some,
        forall|a: int| j <= a < ticks.len() ==> (#[trigger] ticks[a]).now >= ticks[j].now,
    ensures
        ticks[j].controllers[0]->0.moved ==> gate_after(start, ticks).left_stillness.still_since
            >= ticks[j].now,
        ticks[j].controllers[1]->0.moved ==> gate_after(start, ticks).right_stillness.still_since
            >= ticks[j].now,
    decreases ticks.len(),
{
    let n = ticks.len() as int;
    let before = ticks.drop_last();
    assert(ticks.last() == ticks[n - 1]);
    if j < n - 1 {
        assert(before[j] == ticks[j]);
        assert forall|a: int| j <= a < before.len() implies (#[trigger] before[a]).now
            >= before[j].now by {
            assert(before[a] == ticks[a]);
        }
        lemma_stillness_keeps_moves(start, before, j);
    }
}

/// Where both controllers are in use, a tick does not want the hands if either of them moved on
/// this tick or on one within the 1.5 seconds before, on which both were in use too.
pub proof fn law_moved_controller_keeps_the_hands_unwanted(
    start: FocusVisionGate,
    ticks: Seq<ControllerTick>,
    j: int,
)
    requires
        0 <= j < ticks.len(),
        forall|a: int, b: int|
            0 <= a <= b < ticks.len() ==> (#[trigger] ticks[a]).now <= (#[trigger] ticks[b]).now,
        ticks[j].controllers[0] is Some && ticks[j].controllers[1] is Some,
        ticks[j].controllers[0]->0.moved || ticks[j].controllers[1]->0.moved,
        ticks.last().now - ticks[j].now < 1_500_000_000,
        ticks.last().controllers[0] is Some && ticks.last().controllers[1] is Some,
    ensures
        !gate_after(start, ticks.drop_last()).hands_wanted(
            ticks.last().controllers,
            ticks.last().now,
        ),
{
    let n = ticks.len() as int;
    let before = ticks.drop_last();
    assert(ticks.last() == ticks[n - 1]);
    if j < n - 1 {
        assert(before[j] == ticks[j]);
        assert forall|a: int| j <= a < before.len() implies (#[trigger] before[a]).now
            >= before[j].now by {
            assert(before[a] == ticks[a]);
            assert(ticks[j].now <= ticks[a].now);
        }
        lemma_stillness_keeps_moves(start, before, j);
    }
}

proof fn lemma_stillness_without_moves(
    start: FocusVisionGate,
    ticks: Seq<ControllerTick>,
    since: u64,
)
    requires
        start.left_stillness.still_since <= since,
        start.right_stillness.still_since <= since,
        forall|a: int|
            0 <= a < ticks.len() && (#[trigger] ticks[a]).now > since && ticks[a].controllers[0]
                is Some
                && ticks[a].controllers[1] is Some ==> !ticks[a].controllers[0]->0.moved
                && !ticks[a].controllers[1]->0.moved,
    ensures
        gate_after(start, ticks).left_stillness.still_since <= since,
        gate_after(start, ticks).right_stillness.still_since <= since,
    decreases ticks.len(),
{
    if ticks.len() > 0 {
        let before = ticks.drop_last();
        assert(ticks.last() == ticks[ticks.len() - 1]);
        assert forall|a: int|
            0 <= a < before.len() && (#[trigger] before[a]).now > since && before[a].controllers[0]
                is Some
                && before[a].controllers[1] is Some implies !before[a].controllers[0]->0.moved
            && !before[a].controllers[1]->0.moved by {
            assert(before[a] == ticks[a]);
        }
        lemma_stillness_without_moves(start, before, since);
    }
}

/// The hands are wanted again 1.5 seconds after both controllers moved last.
pub proof fn law_resting_controllers_bring_the_hands_back(
    start: FocusVisionGate,
    ticks: Seq<ControllerTick>,
    since: u64,
)
    requires
        ticks.len() > 0,
        start.left_stillness.still_since <= since,
        start.right_stillness.still_since <= since,
        forall|a: int|
            0 <= a < ticks.len() && (#[trigger] ticks[a]).now > since && ticks[a].controllers[0]
                is Some
                && ticks[a].controllers[1] is Some ==> !ticks[a].controllers[0]->0.moved
                && !ticks[a].controllers[1]->0.moved,
        ticks.last().now - since >= 1_500_000_000,
    ensures
        gate_after(start, ticks.drop_last()).hands_wanted(
            ticks.last().controllers,
            ticks.last().now,
        ),
{
    let before = ticks.drop_last();
    assert(ticks.last() == ticks[ticks.len() - 1]);
    assert forall|a: int|
        0 <= a < before.len() && (#[trigger] before[a]).now > since && before[a].controllers[0]
                is Some
            && before[a].controllers[1] is Some implies !before[a].controllers[0]->0.moved
        && !before[a].controllers[1]->0.moved by {
        assert(before[a] == ticks[a]);
    }
    lemma_stillness_without_moves(start, before, since);
}

proof fn lemma_busy_ticks(start: FocusVisionGate, ticks: Seq<ControllerTick>)
    requires
        ticks.len() > 0,
        start.state matches TrackersState::Created { controllers_busy_since } && (
        controllers_busy_since matches Some(since) ==> since <= ticks[0].now),
        forall|a: int|
            0 <= a < ticks.len() ==> {
                &&& (#[trigger] ticks[a]).controllers[0] is Some && ticks[a].controllers[1] is Some
                &&& ticks[a].controllers[0]->0.moved || ticks[a].controllers[1]->0.moved
            },
    ensures
        gate_after(start, ticks).state matches TrackersState::Created {
            controllers_busy_since: Some(since),
        } && since <= ticks[0].now,
    decreases ticks.len(),
{
    let before = ticks.drop_last();
    assert(ticks.last() == ticks[ticks.len() - 1]);
    if before.len() > 0 {
        assert(before[0] == ticks[0]);
        assert forall|a: int| 0 <= a < before.len() implies {
            &&& (#[trigger] before[a]).controllers[0] is Some && before[a].controllers[1] is Some
            &&& before[a].controllers[0]->0.moved || before[a].controllers[1]->0.moved
        } by {
            assert(before[a] == ticks[a]);
        }
        lemma_busy_ticks(start, before);
    } else {
        assert(gate_after(start, before) == start);
    }
}

/// Where on all ticks over 10 seconds both controllers were in use and at least one of them moved,
/// the last tick asks for the trackers to be released, or first for the probe whether they can be
/// recreated.
pub proof fn law_busy_controllers_release_the_trackers(
    start: FocusVisionGate,
    ticks: Seq<ControllerTick>,
)
    requires
        ticks.len() > 0,
        start.state matches TrackersState::Created { controllers_busy_since } && (
        controllers_busy_since matches Some(since) ==> since <= ticks[0].now),
        forall|a: int|
            0 <= a < ticks.len() ==> {
                &&& (#[trigger] ticks[a]).controllers[0] is Some && ticks[a].controllers[1] is Some
                &&& ticks[a].controllers[0]->0.moved || ticks[a].controllers[1]->0.moved
            },
        ticks.last().now - ticks[0].now >= 10_000_000_000,
    ensures
        ({
            let gate = gate_after(start, ticks.drop_last());
            let wanted = gate.hands_wanted(ticks.last().controllers, ticks.last().now);
            &&& gate.state.action(wanted, true, ticks.last().now) is ReleaseTrackers
            &&& gate.state.action(wanted, false, ticks.last().now) is ProbeCreation
        }),
{
    let n = ticks.len() as int;
    let before = ticks.drop_last();
    assert(ticks.last() == ticks[n - 1]);
    assert(before.len() > 0);
    assert(before[0] == ticks[0]);
    assert forall|a: int| 0 <= a < before.len() implies {
        &&& (#[trigger] before[a]).controllers[0] is Some && before[a].controllers[1] is Some
        &&& before[a].controllers[0]->0.moved || before[a].controllers[1]->0.moved
    } by {
        assert(before[a] == ticks[a]);
    }
    lemma_busy_ticks(start, before);
}

/// A tick that wants the hands forgets since when the controllers were busy. One that does not
/// remembers it, and after 10 seconds asks for the release, by way of a probe as long as it is not
/// known that the trackers can be recreated.
pub proof fn law_existing_trackers_by_the_clock(since: Option<u64>, verified: bool, now: u64)
    ensures
        ({
            let state = TrackersState::Created { controllers_busy_since: since };
            let busy_since: u64 = match since {
                Some(since) => since,
                None => now,
            };
            &&& state.action(true, verified, now) is Nothing
            &&& state.ticked(true, now) == (TrackersState::Created { controllers_busy_since: None })
            &&& now - busy_since < 10_000_000_000 ==> {
                &&& state.action(false, verified, now) is Nothing
                &&& state.ticked(false, now) == (TrackersState::Created {
                    controllers_busy_since: Some(busy_since),
                })
            }
            &&& now - busy_since >= 10_000_000_000 ==> {
                &&& verified ==> state.action(false, verified, now) is ReleaseTrackers
                &&& !verified ==> state.action(false, verified, now) is ProbeCreation
                &&& state.ticked(false, now) == state
            }
        }),
{
}

/// Released trackers are created on a tick that wants the hands, not before the time of the next
/// attempt if one is set, and stay released otherwise.
pub proof fn law_released_trackers_by_the_clock(
    next: Option<u64>,
    hands_wanted: bool,
    verified: bool,
    now: u64,
)
    ensures
        ({
            let state = TrackersState::Released { next_create_attempt: next };
            let due = next is None || now >= next->0;
            &&& hands_wanted && due ==> state.action(hands_wanted, verified, now) is CreateTrackers
            &&& !(hands_wanted && due) ==> state.action(hands_wanted, verified, now) is Nothing
            &&& state.ticked(hands_wanted, now) == state
        }),
{
}

/// What becomes of an action. A probe that fails pins the trackers and one that succeeds is
/// remembered. A release forgets the skeletons. Created trackers are polled at once, and a failed
/// creation waits for 5 seconds. Nothing else changes.
pub proof fn law_outcomes_of_actions(gate: FocusVisionGate, now: u64)
    requires
        now + 5_000_000_000 <= u64::MAX,
    ensures
        gate.after_probe(true) == (FocusVisionGate { mid_session_creation_verified: true, ..gate }),
        gate.after_probe(false) == (FocusVisionGate { state: TrackersState::Pinned, ..gate }),
        gate.after_release() == (FocusVisionGate {
            state: TrackersState::Released { next_create_attempt: None },
            cached_skeletons: [None, None],
            ..gate
        }),
        gate.after_creation(true, now) == (FocusVisionGate {
            state: TrackersState::Created { controllers_busy_since: None },
            next_poll: now,
            ..gate
        }),
        gate.after_creation(false, now) == (FocusVisionGate {
            state: TrackersState::Released {
                next_create_attempt: Some((now + 5_000_000_000) as u64),
            },
            ..gate
        }),
        gate.state.has_trackers() <==> !(gate.state is Released),
{
}

/// The joints are located on every tick of a pass-through, and otherwise while the
/// trackers exist and the time has come. The next time is one interval of 16667 microseconds after
/// the last one was due, or after now where that has passed.
pub proof fn law_polls_by_the_clock(gate: FocusVisionGate, due: int, now: u64)
    ensures
        HandTrackingGate::Passthrough.locates(now),
        HandTrackingGate::FocusVision(Box::new(gate)).locates(now) <==> !(gate.state is Released)
            && now >= gate.next_poll,
        now <= due + 16_667_000 ==> next_poll_time(due, now as int) == due + 16_667_000,
        now > due + 16_667_000 ==> next_poll_time(due, now as int) == now + 16_667_000,
{
}

/// Skeletons that were located are sent as they are. A pass-through sends whatever it is handed,
/// and keeps nothing. Otherwise a tick that located none sends those of the cache, and nothing but
/// the cache ever changes.
pub proof fn law_skeletons_are_sent_as_located(
    gate: FocusVisionGate,
    poll: HandJointsPoll,
    located: [Option<Skeleton>; 2],
)
    ensures
        ({
            let focus = HandTrackingGate::FocusVision(Box::new(gate));
            let pass = HandTrackingGate::Passthrough;
            &&& pass.skeletons_sent(poll, located) == located
            &&& pass.after_skeletons(poll, located) == pass
            &&& focus.skeletons_sent(HandJointsPoll::Locate, located) == located
            &&& focus.skeletons_sent(HandJointsPoll::Skip, located) == gate.cached_skeletons
            &&& focus.after_skeletons(HandJointsPoll::Locate, located)
                == HandTrackingGate::FocusVision(
                Box::new(FocusVisionGate { cached_skeletons: located, ..gate }),
            )
            &&& focus.after_skeletons(HandJointsPoll::Skip, located) == focus
        }),
{
}

/// With both controllers in use each detector follows its own one, and with one or none in use the
/// detectors are left alone.
pub proof fn law_detectors_follow_their_controllers(
    gate: FocusVisionGate,
    controllers: [Option<ControllerMotion>; 2],
    now: u64,
)
    ensures
        controllers[0] is Some && controllers[1] is Some ==> {
            &&& gate.left_after(controllers, now) == gate.left_stillness.updated(
                controllers[0]->0,
                now,
            )
            &&& gate.right_after(controllers, now) == gate.right_stillness.updated(
                controllers[1]->0,
                now,
            )
        },
        controllers[0] is None || controllers[1] is None ==> {
            &&& gate.left_after(controllers, now) == gate.left_stillness
            &&& gate.right_after(controllers, now) == gate.right_stillness
        },
{
}

} // verus!
