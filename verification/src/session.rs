//! Attempts to open the camera and stream from it.
use crate::descriptors::{
    parse_streaming_interface, readable, split_descriptors, streaming_interface,
    StreamingInterface,
};
use crate::usb::UsbError;
use vstd::prelude::*;
use vstd::string::*;

verus! {

pub const EYE_CAMERA_VENDOR_ID: i32 = 0x0bb4;

pub const EYE_CAMERA_PRODUCT_ID: i32 = 0x06a7;

/// The pause between attempts.
pub const RETRY_INTERVAL_MS: u64 = 2000;

#[derive(Clone, Copy, PartialEq, Eq, Structural, Debug)]
pub struct EyeCamerasConfig {
    pub fps: u32,
    pub jpeg_quality: u32,
}

/// Whether a USB device is the eye camera.
pub fn is_eye_camera(vendor_id: i32, product_id: i32) -> (b: bool)
    ensures
        b == (vendor_id == EYE_CAMERA_VENDOR_ID && product_id == EYE_CAMERA_PRODUCT_ID),
{
    vendor_id == EYE_CAMERA_VENDOR_ID && product_id == EYE_CAMERA_PRODUCT_ID
}

/// Whether a permission check granted the permission: the check was made, it answered with a
/// number, and that is zero.
pub fn permission_granted(status: Option<Option<i32>>) -> (b: bool)
    ensures
        b == (status == Some(Some(0i32))),
{
    match status {
        Some(Some(status)) => status == 0,
        _ => false,
    }
}

pub enum AttemptOutcome {
    CameraNotFound,
    WaitingForPermission,
    OpenFailed(String),
    CameraBusy,
    Streamed,
}

impl AttemptOutcome {
    /// The attempt failed to open the camera for this reason.
    pub open spec fn failed_with(self, reason: Seq<char>) -> bool {
        self matches AttemptOutcome::OpenFailed(text) && text@ == reason
    }
}

/// What an attempt does next.
pub enum AttemptStep {
    /// Look for the camera among the USB devices, then call `looked`.
    FindCamera,
    /// Ask whether the device may be used, then call `permission_checked`.
    CheckPermission,
    /// Read the device node path, then call `name_read`.
    ReadName,
    /// Ask the user for permission to use the device of this name, then call
    /// `permission_requested`.
    RequestPermission(String),
    /// Open the device, then call `opened`.
    OpenDevice,
    /// Read the descriptors of the open device, then call `descriptors_read`.
    ReadDescriptors,
    /// Claim this streaming interface, then call `claimed`.
    Claim(StreamingInterface),
    /// Stream until it ends, then call `streamed`.
    Stream,
    /// Close the open device, then call `closed`.
    Close(AttemptOutcome),
    Done(AttemptOutcome),
}

impl AttemptStep {
    /// The device is open, so that it is to be closed before the attempt is done.
    pub open spec fn holds_device(self) -> bool {
        self is ReadDescriptors || self is Claim || self is Stream || self is Close
    }
}

/// One attempt to open and stream the camera.
pub struct Attempt {
    pub step: AttemptStep,
}

impl Attempt {
    pub fn new() -> (attempt: Self)
        ensures
            attempt.step is FindCamera,
    {
        Attempt { step: AttemptStep::FindCamera }
    }

    pub fn looked(&mut self, found: bool)
        requires
            old(self).step is FindCamera,
        ensures
            final(self).step == if found {
                AttemptStep::CheckPermission
            } else {
                AttemptStep::Done(AttemptOutcome::CameraNotFound)
            },
    {
        self.step = if found {
            AttemptStep::CheckPermission
        } else {
            AttemptStep::Done(AttemptOutcome::CameraNotFound)
        };
    }

    pub fn permission_checked(&mut self, granted: bool)
        requires
            old(self).step is CheckPermission,
        ensures
            final(self).step == if granted {
                AttemptStep::OpenDevice
            } else {
                AttemptStep::ReadName
            },
    {
        self.step = if granted {
            AttemptStep::OpenDevice
        } else {
            AttemptStep::ReadName
        };
    }

    /// The permission is tied to the device instance: it is voided whenever the camera is
    /// power-cycled (re-enumerated), so ask again for every new instance
    pub fn name_read(&mut self, name: String, streamer: &EyeCamerasStreamer)
        requires
            old(self).step is ReadName,
        ensures
            final(self).step == if streamer.asks_for(name@) {
                AttemptStep::RequestPermission(name)
            } else {
                AttemptStep::Done(AttemptOutcome::WaitingForPermission)
            },
    {
        let asked: bool = match &streamer.permission_requested_for {
            Some(asked) => *asked == name,
            None => false,
        };
        self.step = if asked {
            AttemptStep::Done(AttemptOutcome::WaitingForPermission)
        } else {
            AttemptStep::RequestPermission(name)
        };
    }

    pub fn permission_requested(&mut self, streamer: &mut EyeCamerasStreamer)
        requires
            old(self).step is RequestPermission,
        ensures
            final(self).step == AttemptStep::Done(AttemptOutcome::WaitingForPermission),
            final(streamer).requested_name() == Some(old(self).step->RequestPermission_0@),
            final(streamer).same_but_for_request(*old(streamer)),
            *final(streamer) == (EyeCamerasStreamer {
                permission_requested_for: final(streamer).permission_requested_for,
                ..*old(streamer)
            }),
            final(streamer).permission_requested_for matches Some(name) && name@ == old(
                self,
            ).step->RequestPermission_0@,
    {
        let mut step: AttemptStep = AttemptStep::Done(AttemptOutcome::WaitingForPermission);
        std::mem::swap(&mut self.step, &mut step);
        if let AttemptStep::RequestPermission(name) = step {
            streamer.permission_requested_for = Some(name);
        }
    }

    pub fn opened(&mut self, is_null: bool)
        requires
            old(self).step is OpenDevice,
        ensures
            is_null ==> (final(self).step matches AttemptStep::Done(outcome)
                && outcome.failed_with("openDevice failed"@)),
            !is_null ==> final(self).step is ReadDescriptors,
            final(self).step.holds_device() == !is_null,
    {
        self.step = if is_null {
            AttemptStep::Done(AttemptOutcome::OpenFailed("openDevice failed".to_owned()))
        } else {
            AttemptStep::ReadDescriptors
        };
    }

    pub fn descriptors_read(&mut self, descriptors: &[u8])
        requires
            old(self).step is ReadDescriptors,
            readable(split_descriptors(descriptors@)),
        ensures
            match streaming_interface(split_descriptors(descriptors@)) {
                Some(interface) => final(self).step matches AttemptStep::Claim(found) && found@
                    == interface && interface.usable(),
                None => final(self).step matches AttemptStep::Close(outcome)
                    && outcome.failed_with("no video streaming interface found"@),
            },
            final(self).step.holds_device(),
    {
        self.step = match parse_streaming_interface(descriptors) {
            Some(interface) => AttemptStep::Claim(interface),
            None => AttemptStep::Close(
                AttemptOutcome::OpenFailed("no video streaming interface found".to_owned()),
            ),
        };
    }

    /// Takes in whether the interface was claimed, and the text of the system error where that
    /// failed.
    pub fn claimed(&mut self, result: Result<bool, UsbError>, cause: &str)
        requires
            old(self).step is Claim,
        ensures
            match result {
                Ok(true) => final(self).step is Stream,
                Ok(false) => final(self).step == AttemptStep::Close(AttemptOutcome::CameraBusy),
                Err(error) => final(self).step matches AttemptStep::Close(outcome)
                    && outcome.failed_with(error.text(cause@)),
            },
            final(self).step.holds_device(),
    {
        self.step = match result {
            Ok(true) => AttemptStep::Stream,
            Ok(false) => AttemptStep::Close(AttemptOutcome::CameraBusy),
            Err(error) => AttemptStep::Close(AttemptOutcome::OpenFailed(error.message(cause))),
        };
    }

    pub fn streamed(&mut self)
        requires
            old(self).step is Stream,
        ensures
            final(self).step == AttemptStep::Close(AttemptOutcome::Streamed),
            final(self).step.holds_device(),
    {
        self.step = AttemptStep::Close(AttemptOutcome::Streamed);
    }

    pub fn closed(&mut self)
        requires
            old(self).step is Close,
        ensures
            final(self).step == AttemptStep::Done(old(self).step->Close_0),
    {
        let mut step: AttemptStep = AttemptStep::FindCamera;
        std::mem::swap(&mut self.step, &mut step);
        if let AttemptStep::Close(outcome) = step {
            self.step = AttemptStep::Done(outcome);
        }
    }
}

/// What is to be told about an attempt.
pub enum Report {
    Nothing,
    /// The camera was not found, is the headset eye tracking enabled?
    NotFound,
    OpenFailed(String),
    /// The camera is held by the headset eye tracking service.
    Busy,
    /// A call into the Java virtual machine failed.
    JavaError,
}

/// Why the streamer ended.
#[derive(Clone, Copy, PartialEq, Eq, Structural, Debug)]
pub enum SessionEnd {
    /// It was told to stop.
    Stopped,
    /// The thread could not be attached to the Java virtual machine.
    NoVirtualMachine,
    /// The USB host API is not available.
    NoUsbManager,
}

/// What the streamer does next.
#[derive(Clone, Copy, PartialEq, Eq, Structural, Debug)]
pub enum SessionStep {
    /// Attach the thread to the Java virtual machine, then call `attached`.
    Attach,
    /// Check the camera permission, then call `permission_checked`. Android requires it before
    /// granting access to USB video devices.
    CheckPermission,
    /// Ask the user for the camera permission, then call `permission_requested`.
    RequestPermission,
    /// While the permission is missing: look whether the streamer is to run, then call
    /// `running_checked`.
    AwaitPermission,
    /// Check the camera permission again, then call `permission_checked`.
    RecheckPermission,
    /// Pause, then call `paused`.
    PauseForPermission,
    /// Get hold of the USB host API, then call `usb_manager_found`.
    FindUsbManager,
    /// Look whether the streamer is to run, then call `running_checked`.
    CheckRunning,
    /// Make an `Attempt`, then call `attempted`.
    Attempt,
    /// After an attempt: look whether the streamer is to run, then call `running_checked`.
    CheckPause,
    /// Pause, then call `paused`.
    Pause,
    End(SessionEnd),
}

/// What happened in the course of a session.
pub enum SessionEvent {
    Attached(bool),
    PermissionChecked(bool),
    PermissionRequested,
    RunningChecked(bool),
    Paused,
    UsbManagerFound(bool),
    Attempted,
}

impl SessionStep {
    /// The step after an event, none where the step does not wait for such an event.
    pub open spec fn next(self, event: SessionEvent) -> Option<SessionStep> {
        match (self, event) {
            (SessionStep::Attach, SessionEvent::Attached(attached)) => Some(
                if attached {
                    SessionStep::CheckPermission
                } else {
                    SessionStep::End(SessionEnd::NoVirtualMachine)
                },
            ),
            (SessionStep::CheckPermission, SessionEvent::PermissionChecked(granted)) => Some(
                if granted {
                    SessionStep::FindUsbManager
                } else {
                    SessionStep::RequestPermission
                },
            ),
            (SessionStep::RequestPermission, SessionEvent::PermissionRequested) => Some(
                SessionStep::AwaitPermission,
            ),
            (SessionStep::AwaitPermission, SessionEvent::RunningChecked(running)) => Some(
                if running {
                    SessionStep::RecheckPermission
                } else {
                    SessionStep::FindUsbManager
                },
            ),
            (SessionStep::RecheckPermission, SessionEvent::PermissionChecked(granted)) => Some(
                if granted {
                    SessionStep::FindUsbManager
                } else {
                    SessionStep::PauseForPermission
                },
            ),
            (SessionStep::PauseForPermission, SessionEvent::Paused) => Some(
                SessionStep::AwaitPermission,
            ),
            (SessionStep::FindUsbManager, SessionEvent::UsbManagerFound(found)) => Some(
                if found {
                    SessionStep::CheckRunning
                } else {
                    SessionStep::End(SessionEnd::NoUsbManager)
                },
            ),
            (SessionStep::CheckRunning, SessionEvent::RunningChecked(running)) => Some(
                if running {
                    SessionStep::Attempt
                } else {
                    SessionStep::End(SessionEnd::Stopped)
                },
            ),
            (SessionStep::Attempt, SessionEvent::Attempted) => Some(SessionStep::CheckPause),
            (SessionStep::CheckPause, SessionEvent::RunningChecked(running)) => Some(
                if running {
                    SessionStep::Pause
                } else {
                    SessionStep::CheckRunning
                },
            ),
            (SessionStep::Pause, SessionEvent::Paused) => Some(SessionStep::CheckRunning),
            _ => None,
        }
    }

    /// The permission was granted, or the streamer was told to stop, before this step.
    pub open spec fn is_past_permission(self) -> bool {
        ||| self is FindUsbManager
        ||| self is CheckRunning
        ||| self is Attempt
        ||| self is CheckPause
        ||| self is Pause
    }
}

/// Streams the eye cameras until it is told to stop, one attempt after the other.
pub struct EyeCamerasStreamer {
    pub config: EyeCamerasConfig,
    pub step: SessionStep,
    /// The device that the user was last asked for.
    pub permission_requested_for: Option<String>,
    pub logged_not_found: bool,
    pub logged_busy: bool,
}

impl EyeCamerasStreamer {
    pub open spec fn requested_name(self) -> Option<Seq<char>> {
        match self.permission_requested_for {
            Some(name) => Some(name@),
            None => None,
        }
    }

    /// The user is to be asked for this device.
    pub open spec fn asks_for(self, name: Seq<char>) -> bool {
        asks(self.requested_name(), name)
    }

    /// Differs from `before` in nothing but the device that the user was last asked for.
    pub open spec fn same_but_for_request(self, before: EyeCamerasStreamer) -> bool {
        &&& self.config == before.config
        &&& self.step == before.step
        &&& self.logged_not_found == before.logged_not_found
        &&& self.logged_busy == before.logged_busy
    }

    pub fn new(config: EyeCamerasConfig) -> (streamer: Self)
        ensures
            streamer.config == config,
            streamer.step is Attach,
            streamer.requested_name() is None,
            !streamer.logged_not_found,
            !streamer.logged_busy,
    {
        EyeCamerasStreamer {
            config,
            step: SessionStep::Attach,
            permission_requested_for: None,
            logged_not_found: false,
            logged_busy: false,
        }
    }

    pub fn attached(&mut self, attached: bool)
        requires
            old(self).step is Attach,
        ensures
            Some(final(self).step) == old(self).step.next(SessionEvent::Attached(attached)),
            *final(self) == (EyeCamerasStreamer { step: final(self).step, ..*old(self) }),
    {
        self.step = if attached {
            SessionStep::CheckPermission
        } else {
            SessionStep::End(SessionEnd::NoVirtualMachine)
        };
    }

    pub fn permission_checked(&mut self, granted: bool)
        requires
            old(self).step is CheckPermission || old(self).step is RecheckPermission,
        ensures
            Some(final(self).step) == old(self).step.next(SessionEvent::PermissionChecked(granted)),
            *final(self) == (EyeCamerasStreamer { step: final(self).step, ..*old(self) }),
    {
        self.step = if granted {
            SessionStep::FindUsbManager
        } else if self.step == SessionStep::CheckPermission {
            SessionStep::RequestPermission
        } else {
            SessionStep::PauseForPermission
        };
    }

    pub fn permission_requested(&mut self)
        requires
            old(self).step is RequestPermission,
        ensures
            Some(final(self).step) == old(self).step.next(SessionEvent::PermissionRequested),
            *final(self) == (EyeCamerasStreamer { step: final(self).step, ..*old(self) }),
    {
        self.step = SessionStep::AwaitPermission;
    }

    pub fn running_checked(&mut self, running: bool)
        requires
            old(self).step is AwaitPermission || old(self).step is CheckRunning
                || old(self).step is CheckPause,
        ensures
            Some(final(self).step) == old(self).step.next(SessionEvent::RunningChecked(running)),
            *final(self) == (EyeCamerasStreamer { step: final(self).step, ..*old(self) }),
    {
        self.step = match self.step {
            SessionStep::AwaitPermission => if running {
                SessionStep::RecheckPermission
            } else {
                SessionStep::FindUsbManager
            },
            SessionStep::CheckRunning => if running {
                SessionStep::Attempt
            } else {
                SessionStep::End(SessionEnd::Stopped)
            },
            _ => if running {
                SessionStep::Pause
            } else {
                SessionStep::CheckRunning
            },
        };
    }

    pub fn paused(&mut self)
        requires
            old(self).step is PauseForPermission || old(self).step is Pause,
        ensures
            Some(final(self).step) == old(self).step.next(SessionEvent::Paused),
            *final(self) == (EyeCamerasStreamer { step: final(self).step, ..*old(self) }),
    {
        self.step = if self.step == SessionStep::PauseForPermission {
            SessionStep::AwaitPermission
        } else {
            SessionStep::CheckRunning
        };
    }

    pub fn usb_manager_found(&mut self, found: bool)
        requires
            old(self).step is FindUsbManager,
        ensures
            Some(final(self).step) == old(self).step.next(SessionEvent::UsbManagerFound(found)),
            *final(self) == (EyeCamerasStreamer { step: final(self).step, ..*old(self) }),
    {
        self.step = if found {
            SessionStep::CheckRunning
        } else {
            SessionStep::End(SessionEnd::NoUsbManager)
        };
    }

    /// Takes in the outcome of an attempt, none where a call into the Java virtual machine
    /// failed. A missing or busy camera is reported once until the camera streamed again.
    pub fn attempted(&mut self, outcome: Option<AttemptOutcome>) -> (report: Report)
        requires
            old(self).step is Attempt,
        ensures
            Some(final(self).step) == old(self).step.next(SessionEvent::Attempted),
            report == reported(outcome, old(self).logged_not_found, old(self).logged_busy),
            *final(self) == (EyeCamerasStreamer {
                step: final(self).step,
                logged_not_found: not_found_logged(outcome, old(self).logged_not_found),
                logged_busy: busy_logged(outcome, old(self).logged_busy),
                ..*old(self)
            }),
    {
        self.step = SessionStep::CheckPause;
        let outcome: AttemptOutcome = match outcome {
            Some(outcome) => outcome,
            None => {
                return Report::JavaError;
            },
        };
        match outcome {
            AttemptOutcome::CameraNotFound => {
                if self.logged_not_found {
                    Report::Nothing
                } else {
                    self.logged_not_found = true;
                    Report::NotFound
                }
            },
            AttemptOutcome::WaitingForPermission => Report::Nothing,
            AttemptOutcome::OpenFailed(reason) => Report::OpenFailed(reason),
            AttemptOutcome::CameraBusy => {
                if self.logged_busy {
                    Report::Nothing
                } else {
                    self.logged_busy = true;
                    Report::Busy
                }
            },
            AttemptOutcome::Streamed => {
                self.logged_not_found = false;
                self.logged_busy = false;
                Report::Nothing
            },
        }
    }
}

/// The user is to be asked for a device unless they were last asked for that one.
pub open spec fn asks(requested: Option<Seq<char>>, name: Seq<char>) -> bool {
    requested != Some(name)
}

/// The attempt did not find the camera.
pub open spec fn missed(outcome: Option<AttemptOutcome>) -> bool {
    outcome == Some(AttemptOutcome::CameraNotFound)
}

/// The attempt found the camera held by another process.
pub open spec fn was_busy(outcome: Option<AttemptOutcome>) -> bool {
    outcome == Some(AttemptOutcome::CameraBusy)
}

/// The attempt streamed.
pub open spec fn streamed(outcome: Option<AttemptOutcome>) -> bool {
    outcome == Some(AttemptOutcome::Streamed)
}

/// Whether a trouble is on record after an attempt that met it or did not. Streaming clears it.
pub open spec fn on_record(met: bool, outcome: Option<AttemptOutcome>, logged: bool) -> bool {
    met || (logged && !streamed(outcome))
}

/// Whether a missing camera is on record after an attempt.
pub open spec fn not_found_logged(outcome: Option<AttemptOutcome>, logged: bool) -> bool {
    on_record(missed(outcome), outcome, logged)
}

/// Whether a busy camera is on record after an attempt.
pub open spec fn busy_logged(outcome: Option<AttemptOutcome>, logged: bool) -> bool {
    on_record(was_busy(outcome), outcome, logged)
}

/// What is to be told about an attempt, given what is on record.
pub open spec fn reported(
    outcome: Option<AttemptOutcome>,
    not_found_logged: bool,
    busy_logged: bool,
) -> Report {
    match outcome {
        Some(AttemptOutcome::CameraNotFound) => if not_found_logged {
            Report::Nothing
        } else {
            Report::NotFound
        },
        Some(AttemptOutcome::OpenFailed(reason)) => Report::OpenFailed(reason),
        Some(AttemptOutcome::CameraBusy) => if busy_logged {
            Report::Nothing
        } else {
            Report::Busy
        },
        Some(_) => Report::Nothing,
        None => Report::JavaError,
    }
}

/// Whether a trouble is on record after the outcomes, where `met` says which of them met it.
pub open spec fn on_record_after(
    met: spec_fn(Option<AttemptOutcome>) -> bool,
    outcomes: Seq<Option<AttemptOutcome>>,
) -> bool
    decreases outcomes.len(),
{
    if outcomes.len() == 0 {
        false
    } else {
        on_record(
            met(outcomes.last()),
            outcomes.last(),
            on_record_after(met, outcomes.drop_last()),
        )
    }
}

/// Whether a missing camera is on record after the outcomes.
pub open spec fn not_found_logged_after(outcomes: Seq<Option<AttemptOutcome>>) -> bool {
    on_record_after(|outcome: Option<AttemptOutcome>| missed(outcome), outcomes)
}

/// Whether a busy camera is on record after the outcomes.
pub open spec fn busy_logged_after(outcomes: Seq<Option<AttemptOutcome>>) -> bool {
    on_record_after(|outcome: Option<AttemptOutcome>| was_busy(outcome), outcomes)
}

/// What attempt `k` reports.
pub open spec fn report_of(outcomes: Seq<Option<AttemptOutcome>>, k: int) -> Report {
    reported(
        outcomes[k],
        not_found_logged_after(outcomes.take(k)),
        busy_logged_after(outcomes.take(k)),
    )
}

/// A trouble is off the record before attempt `k` exactly if the camera streamed after each earlier
/// attempt that met it.
proof fn lemma_off_record(
    met: spec_fn(Option<AttemptOutcome>) -> bool,
    outcomes: Seq<Option<AttemptOutcome>>,
    k: int,
)
    requires
        0 <= k <= outcomes.len(),
        forall|outcome: Option<AttemptOutcome>| #[trigger] met(outcome) ==> !streamed(outcome),
    ensures
        !on_record_after(met, outcomes.take(k)) <==> forall|i: int|
            0 <= i < k && met(#[trigger] outcomes[i]) ==> exists|j: int|
                i < j < k && streamed(#[trigger] outcomes[j]),
    decreases k,
{
    if k > 0 {
        let last = outcomes[k - 1];
        lemma_off_record(met, outcomes, k - 1);
        assert(outcomes.take(k).drop_last() =~= outcomes.take(k - 1));
        assert(outcomes.take(k).last() == last);
        if !on_record_after(met, outcomes.take(k)) {
            assert forall|i: int| 0 <= i < k && met(#[trigger] outcomes[i]) implies exists|j: int|
                i < j < k && streamed(#[trigger] outcomes[j]) by {
                assert(i < k - 1);
                if !streamed(last) {
                    let j = choose|j: int| i < j < k - 1 && streamed(#[trigger] outcomes[j]);
                    assert(streamed(outcomes[j]));
                }
            }
        } else if !met(last) {
            let i = choose|i: int|
                0 <= i < k - 1 && met(#[trigger] outcomes[i]) && forall|j: int|
                    i < j < k - 1 ==> !streamed(#[trigger] outcomes[j]);
            assert(met(outcomes[i]));
            assert(forall|j: int| i < j < k ==> !streamed(#[trigger] outcomes[j]));
        } else {
            assert(met(outcomes[k - 1]));
        }
    }
}

/// A missing camera is reported exactly on the first attempt that misses it since the start or
/// since the camera last streamed, and so is a busy one.
pub proof fn law_missing_or_busy_camera_is_reported_once(
    outcomes: Seq<Option<AttemptOutcome>>,
    k: int,
)
    requires
        0 <= k < outcomes.len(),
    ensures
        report_of(outcomes, k) is NotFound <==> missed(outcomes[k]) && forall|i: int|
            0 <= i < k && missed(#[trigger] outcomes[i]) ==> exists|j: int|
                i < j < k && streamed(#[trigger] outcomes[j]),
        report_of(outcomes, k) is Busy <==> was_busy(outcomes[k]) && forall|i: int|
            0 <= i < k && was_busy(#[trigger] outcomes[i]) ==> exists|j: int|
                i < j < k && streamed(#[trigger] outcomes[j]),
{
    lemma_off_record(|outcome: Option<AttemptOutcome>| missed(outcome), outcomes, k);
    lemma_off_record(|outcome: Option<AttemptOutcome>| was_busy(outcome), outcomes, k);
}

/// The device that the user was last asked for, after attempts that read these names without
/// having the permission.
pub open spec fn requested_after(names: Seq<Seq<char>>) -> Option<Seq<char>>
    decreases names.len(),
{
    if names.len() == 0 {
        None
    } else if asks(requested_after(names.drop_last()), names.last()) {
        Some(names.last())
    } else {
        requested_after(names.drop_last())
    }
}

/// The user is asked once for each device instance: an attempt asks exactly if the one before
/// it, if any, read another name.
pub proof fn law_user_is_asked_once_per_device(names: Seq<Seq<char>>, k: int)
    requires
        0 <= k < names.len(),
    ensures
        asks(requested_after(names.take(k)), names[k]) <==> k == 0 || names[k] != names[k - 1],
    decreases k,
{
    if k > 0 {
        law_user_is_asked_once_per_device(names, k - 1);
        assert(names.take(k).drop_last() =~= names.take(k - 1));
        assert(names.take(k).last() == names[k - 1]);
    }
}

/// The step after a course of events, none where an event comes that nobody waits for.
pub open spec fn step_after(events: Seq<SessionEvent>) -> Option<SessionStep>
    decreases events.len(),
{
    if events.len() == 0 {
        Some(SessionStep::Attach)
    } else {
        match step_after(events.drop_last()) {
            Some(step) => step.next(events.last()),
            None => None,
        }
    }
}

/// The streamer was told to stop by event `i`.
pub open spec fn stopped_at(events: Seq<SessionEvent>, i: int) -> bool {
    0 <= i < events.len() && events[i] == SessionEvent::RunningChecked(false)
}

/// The camera permission was granted by event `i`.
pub open spec fn granted_at(events: Seq<SessionEvent>, i: int) -> bool {
    0 <= i < events.len() && events[i] == SessionEvent::PermissionChecked(true)
}

/// A pause ended with event `i`.
pub open spec fn paused_at(events: Seq<SessionEvent>, i: int) -> bool {
    0 <= i < events.len() && events[i] is Paused
}

/// A streamer that was told to stop is not told to run again.
pub open spec fn stays_stopped(events: Seq<SessionEvent>) -> bool {
    forall|i: int, j: int|
        #[trigger] stopped_at(events, i) && i < j < events.len() ==> #[trigger] events[j]
            != SessionEvent::RunningChecked(true)
}

proof fn lemma_permission(events: Seq<SessionEvent>)
    requires
        step_after(events) matches Some(step) && step.is_past_permission(),
    ensures
        (exists|i: int| #[trigger] granted_at(events, i)) || (exists|i: int| #[trigger]
            stopped_at(events, i)),
    decreases events.len(),
{
    let n = events.len() as int;
    let before = events.drop_last();
    let step = step_after(before)->0;
    assert(events.last() == events[n - 1]);
    if step.is_past_permission() {
        lemma_permission(before);
        if exists|i: int| #[trigger] granted_at(before, i) {
            let i = choose|i: int| #[trigger] granted_at(before, i);
            assert(granted_at(events, i));
        } else {
            let i = choose|i: int| #[trigger] stopped_at(before, i);
            assert(stopped_at(events, i));
        }
    } else if events.last() is PermissionChecked {
        assert(granted_at(events, n - 1));
    } else {
        assert(stopped_at(events, n - 1));
    }
}

/// No attempt to open the camera is made before the camera permission was granted.
pub proof fn law_attempts_need_the_permission(events: Seq<SessionEvent>)
    requires
        stays_stopped(events),
        step_after(events) == Some(SessionStep::Attempt),
    ensures
        exists|i: int| #[trigger] granted_at(events, i),
{
    let n = events.len() as int;
    lemma_permission(events);
    assert(events.last() == events[n - 1]);
    assert(events[n - 1] == SessionEvent::RunningChecked(true));
    assert forall|i: int| !#[trigger] stopped_at(events, i) by {
        assert(i < n - 1 || i >= n - 1);
    }
}

proof fn lemma_pause(events: Seq<SessionEvent>, k: int)
    requires
        0 <= k < events.len(),
        events[k] is Attempted,
        step_after(events) is Some,
        forall|i: int| k < i ==> !#[trigger] paused_at(events, i),
    ensures
        step_after(events) matches Some(step) && (step is CheckPause || step is Pause
            || exists|i: int| k < i && #[trigger] stopped_at(events, i)),
    decreases events.len(),
{
    let n = events.len() as int;
    let before = events.drop_last();
    assert(events.last() == events[n - 1]);
    if k < n - 1 {
        assert forall|i: int| k < i implies !#[trigger] paused_at(before, i) by {
            assert(!paused_at(events, i));
        }
        lemma_pause(before, k);
        assert(!paused_at(events, n - 1));
        let step = step_after(before)->0;
        if exists|i: int| k < i && #[trigger] stopped_at(before, i) {
            let i = choose|i: int| k < i && #[trigger] stopped_at(before, i);
            assert(stopped_at(events, i));
        } else if step is CheckPause && events.last() == SessionEvent::RunningChecked(false) {
            assert(stopped_at(events, n - 1));
        }
    }
}

/// Two attempts are never made without a pause between them.
pub proof fn law_attempts_are_spaced(events: Seq<SessionEvent>, k: int)
    requires
        stays_stopped(events),
        step_after(events) == Some(SessionStep::Attempt),
        0 <= k < events.len(),
        events[k] is Attempted,
    ensures
        exists|i: int| k < i && #[trigger] paused_at(events, i),
{
    let n = events.len() as int;
    if forall|i: int| k < i ==> !#[trigger] paused_at(events, i) {
        lemma_pause(events, k);
        assert(events.last() == events[n - 1]);
        assert(events[n - 1] == SessionEvent::RunningChecked(true));
        let i = choose|i: int| k < i && #[trigger] stopped_at(events, i);
        assert(i < n - 1);
    }
}

/// A failure to open the camera is reported each time, with its reason, and so is a failed call
/// into the Java virtual machine. Streaming and waiting for the permission are not reported.
pub proof fn law_failures_are_reported_each_time(
    reason: String,
    not_found_logged: bool,
    busy_logged: bool,
)
    ensures
        reported(Some(AttemptOutcome::OpenFailed(reason)), not_found_logged, busy_logged)
            == Report::OpenFailed(reason),
        reported(None, not_found_logged, busy_logged) is JavaError,
        reported(Some(AttemptOutcome::Streamed), not_found_logged, busy_logged) is Nothing,
        reported(Some(AttemptOutcome::WaitingForPermission), not_found_logged, busy_logged)
            is Nothing,
{
}

/// What is on record of a missing camera is set by an attempt that misses it, cleared by one that
/// streams, and left alone by every other one. The same holds of a busy camera.
pub proof fn law_record_is_set_and_cleared(outcome: Option<AttemptOutcome>, logged: bool)
    ensures
        outcome == Some(AttemptOutcome::CameraNotFound) ==> not_found_logged(outcome, logged),
        outcome == Some(AttemptOutcome::CameraBusy) ==> busy_logged(outcome, logged),
        outcome == Some(AttemptOutcome::Streamed) ==> !not_found_logged(outcome, logged)
            && !busy_logged(outcome, logged),
        outcome != Some(AttemptOutcome::CameraNotFound) && outcome != Some(
            AttemptOutcome::Streamed,
        ) ==> not_found_logged(outcome, logged) == logged,
        outcome != Some(AttemptOutcome::CameraBusy) && outcome != Some(AttemptOutcome::Streamed)
            ==> busy_logged(outcome, logged) == logged,
{
}

/// The user is asked for a device exactly if they were last asked for none or for another one.
pub proof fn law_asking_goes_by_the_name(streamer: EyeCamerasStreamer, name: Seq<char>)
    ensures
        streamer.asks_for(name) <==> match streamer.permission_requested_for {
            Some(asked) => asked@ != name,
            None => true,
        },
        streamer.requested_name() is Some <==> streamer.permission_requested_for is Some,
        streamer.permission_requested_for matches Some(asked) ==> streamer.requested_name() == Some(
            asked@,
        ),
{
}

/// An attempt failed with a reason exactly if its outcome says so in these words.
pub proof fn law_reason_of_a_failure(outcome: AttemptOutcome, reason: Seq<char>)
    ensures
        outcome.failed_with(reason) <==> match outcome {
            AttemptOutcome::OpenFailed(text) => text@ == reason,
            _ => false,
        },
{
}

/// The device is open from when it was opened up to when it was closed.
pub proof fn law_steps_with_an_open_device(step: AttemptStep)
    ensures
        step is ReadDescriptors || step is Claim || step is Stream || step is Close
            ==> step.holds_device(),
        step is FindCamera || step is CheckPermission || step is ReadName
            || step is RequestPermission || step is OpenDevice || step is Done
            ==> !step.holds_device(),
{
}

/// Events that a session waits for: each one takes it one step on, and no other event does.
pub proof fn law_course_of_a_session(flag: bool)
    ensures
        SessionStep::Attach.next(SessionEvent::Attached(flag)) == Some(
            if flag {
                SessionStep::CheckPermission
            } else {
                SessionStep::End(SessionEnd::NoVirtualMachine)
            },
        ),
        SessionStep::CheckPermission.next(SessionEvent::PermissionChecked(flag)) == Some(
            if flag {
                SessionStep::FindUsbManager
            } else {
                SessionStep::RequestPermission
            },
        ),
        SessionStep::RequestPermission.next(SessionEvent::PermissionRequested) == Some(
            SessionStep::AwaitPermission,
        ),
        SessionStep::AwaitPermission.next(SessionEvent::RunningChecked(flag)) == Some(
            if flag {
                SessionStep::RecheckPermission
            } else {
                SessionStep::FindUsbManager
            },
        ),
        SessionStep::RecheckPermission.next(SessionEvent::PermissionChecked(flag)) == Some(
            if flag {
                SessionStep::FindUsbManager
            } else {
                SessionStep::PauseForPermission
            },
        ),
        SessionStep::PauseForPermission.next(SessionEvent::Paused) == Some(
            SessionStep::AwaitPermission,
        ),
        SessionStep::FindUsbManager.next(SessionEvent::UsbManagerFound(flag)) == Some(
            if flag {
                SessionStep::CheckRunning
            } else {
                SessionStep::End(SessionEnd::NoUsbManager)
            },
        ),
        SessionStep::CheckRunning.next(SessionEvent::RunningChecked(flag)) == Some(
            if flag {
                SessionStep::Attempt
            } else {
                SessionStep::End(SessionEnd::Stopped)
            },
        ),
        SessionStep::Attempt.next(SessionEvent::Attempted) == Some(SessionStep::CheckPause),
        SessionStep::CheckPause.next(SessionEvent::RunningChecked(flag)) == Some(
            if flag {
                SessionStep::Pause
            } else {
                SessionStep::CheckRunning
            },
        ),
        SessionStep::Pause.next(SessionEvent::Paused) == Some(SessionStep::CheckRunning),
{
}

} // verus!
