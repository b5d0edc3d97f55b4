//! State of the server that hands the eye camera frames to PC-side eye tracking software.
use std::sync::Arc;
use vstd::prelude::*;

verus! {

#[derive(Clone, Copy, PartialEq, Eq, Structural, Debug)]
pub enum Eye {
    Left,
    Right,
}

/// How often a streaming connection checks for shutdown while no frame arrives
pub const FRAME_WAIT_TIMEOUT_MS: u64 = 1000;

pub const REQUEST_READ_TIMEOUT_MS: u64 = 5000;

/// `Arc::clone`: another handle on the same bytes.
#[verifier::external_body]
fn share(bytes: &Arc<Vec<u8>>) -> (handle: Arc<Vec<u8>>)
    ensures
        handle == *bytes,
{
    Arc::clone(bytes)
}

/// Why a waiting connection looks for a frame again.
#[derive(Clone, Copy, PartialEq, Eq, Structural, Debug)]
pub enum WaitEvent {
    Started,
    /// A frame was pushed or the server is shutting down.
    Woken,
    /// Nothing happened for a while. In between the peer may have closed the connection.
    TimedOut { peer_closed: bool },
}

/// What a waiting connection does next.
pub enum WaitStep {
    /// Send this frame.
    Frame { sequence: u64, jpeg: Arc<Vec<u8>> },
    Wait,
    /// The server is shutting down, or the peer is gone.
    GiveUp,
}

/// The view of a `WaitStep`.
pub enum WaitStepView {
    Frame { sequence: nat, jpeg: Seq<u8> },
    Wait,
    GiveUp,
}

impl View for WaitStep {
    type V = WaitStepView;

    open spec fn view(&self) -> WaitStepView {
        match *self {
            WaitStep::Frame { sequence, jpeg } => WaitStepView::Frame {
                sequence: sequence as nat,
                jpeg: jpeg@,
            },
            WaitStep::Wait => WaitStepView::Wait,
            WaitStep::GiveUp => WaitStepView::GiveUp,
        }
    }
}

/// The newest frame is not the one that a connection sent last.
pub open spec fn is_new(sequence: nat, last_sequence: nat) -> bool {
    sequence != last_sequence
}

/// The latest frame of both eyes, and whether the server runs.
pub struct EyeCameraServer {
    /// How many frames were pushed.
    pub sequence: u64,
    pub left_jpeg: Arc<Vec<u8>>,
    pub right_jpeg: Arc<Vec<u8>>,
    pub running: bool,
}

/// The view of an `EyeCameraServer`.
#[verifier::ext_equal]
pub struct ServerView {
    pub sequence: nat,
    pub left_jpeg: Seq<u8>,
    pub right_jpeg: Seq<u8>,
    pub running: bool,
}

impl View for EyeCameraServer {
    type V = ServerView;

    open spec fn view(&self) -> ServerView {
        ServerView {
            sequence: self.sequence as nat,
            left_jpeg: self.left_jpeg@,
            right_jpeg: self.right_jpeg@,
            running: self.running,
        }
    }
}

impl ServerView {
    pub open spec fn jpeg(self, eye: Eye) -> Seq<u8> {
        match eye {
            Eye::Left => self.left_jpeg,
            Eye::Right => self.right_jpeg,
        }
    }

    /// With one frame more.
    pub open spec fn pushed(self, left_jpeg: Seq<u8>, right_jpeg: Seq<u8>) -> ServerView {
        ServerView {
            sequence: self.sequence + 1,
            left_jpeg,
            right_jpeg,
            running: self.running,
        }
    }

    pub open spec fn stopped(self) -> ServerView {
        ServerView { running: false, ..self }
    }

    /// What a connection that looks for a frame newer than `last_sequence` does.
    pub open spec fn found(self, last_sequence: nat, eye: Eye, event: WaitEvent) -> WaitStepView {
        if event == (WaitEvent::TimedOut { peer_closed: true }) {
            WaitStepView::GiveUp
        } else if is_new(self.sequence, last_sequence) {
            WaitStepView::Frame { sequence: self.sequence, jpeg: self.jpeg(eye) }
        } else if self.running {
            WaitStepView::Wait
        } else {
            WaitStepView::GiveUp
        }
    }
}

impl EyeCameraServer {
    /// A running server without a frame.
    pub fn new() -> (server: Self)
        ensures
            server@ == (ServerView {
                sequence: 0,
                left_jpeg: Seq::empty(),
                right_jpeg: Seq::empty(),
                running: true,
            }),
    {
        EyeCameraServer {
            sequence: 0,
            left_jpeg: Arc::new(Vec::new()),
            right_jpeg: Arc::new(Vec::new()),
            running: true,
        }
    }

    pub fn push_frame(&mut self, left_jpeg: Vec<u8>, right_jpeg: Vec<u8>)
        requires
            old(self)@.sequence < u64::MAX,
        ensures
            final(self)@ == old(self)@.pushed(left_jpeg@, right_jpeg@),
    {
        self.sequence += 1;
        self.left_jpeg = Arc::new(left_jpeg);
        self.right_jpeg = Arc::new(right_jpeg);
    }

    /// Tells the connections to end.
    pub fn shut_down(&mut self)
        ensures
            final(self)@ == old(self)@.stopped(),
    {
        self.running = false;
    }

    /// Looks for a frame newer than `last_sequence`, zero standing for none. A connection whose
    /// peer is gone gives up, and one that finds no new frame on a server that shuts down.
    pub fn wait_frame(&self, last_sequence: u64, eye: Eye, event: WaitEvent) -> (step: WaitStep)
        ensures
            step@ == self@.found(last_sequence as nat, eye, event),
    {
        if let WaitEvent::TimedOut { peer_closed } = event {
            if peer_closed {
                return WaitStep::GiveUp;
            }
        }
        if self.sequence == last_sequence {
            if self.running {
                return WaitStep::Wait;
            } else {
                return WaitStep::GiveUp;
            }
        }
        let jpeg: Arc<Vec<u8>> = match eye {
            Eye::Left => share(&self.left_jpeg),
            Eye::Right => share(&self.right_jpeg),
        };
        WaitStep::Frame { sequence: self.sequence, jpeg }
    }
}

/// What looking at the connection without reading from it showed.
#[derive(Clone, Copy, PartialEq, Eq, Structural, Debug)]
pub enum Peek {
    /// This many bytes are there to read.
    Bytes(usize),
    WouldBlock,
    Failed,
}

/// Detects a connection closed by the peer. Where it was not possible to look, it counts as open.
pub fn peer_closed(peek: Option<Peek>) -> (closed: bool)
    ensures
        closed == (peek == Some(Peek::Bytes(0)) || peek == Some(Peek::Failed)),
{
    match peek {
        Some(Peek::Bytes(count)) => count == 0,
        Some(Peek::WouldBlock) => false,
        Some(Peek::Failed) => true,
        None => false,
    }
}

/// The number of the frame that a connection sent last, after looks at a server that had pushed
/// so many frames each time.
pub open spec fn last_sent(pushed: Seq<nat>) -> nat
    decreases pushed.len(),
{
    if pushed.len() == 0 {
        0
    } else if is_new(pushed.last(), last_sent(pushed.drop_last())) {
        pushed.last()
    } else {
        last_sent(pushed.drop_last())
    }
}

/// A connection sends a frame on look `k`.
pub open spec fn sends_on(pushed: Seq<nat>, k: int) -> bool {
    is_new(pushed[k], last_sent(pushed.take(k)))
}

/// A connection sends exactly if frames were pushed since its last look, so that it sends no frame
/// twice and never goes back to an older one.
pub proof fn law_connection_sends_each_frame_once(pushed: Seq<nat>, j: int, k: int)
    requires
        0 <= j < k < pushed.len(),
        forall|a: int, b: int| 0 <= a <= b < pushed.len() ==> pushed[a] <= pushed[b],
    ensures
        sends_on(pushed, 0) <==> pushed[0] > 0,
        sends_on(pushed, k) <==> pushed[k] > pushed[k - 1],
        sends_on(pushed, j) && sends_on(pushed, k) ==> pushed[j] < pushed[k],
{
    assert(last_sent(pushed.take(0)) == 0);
    assert(pushed.take(k).last() == pushed[k - 1]);
    assert(pushed[j] <= pushed[k - 1]);
}

/// The server after frames were pushed, each with its images of the left and of the right eye.
pub open spec fn after_pushes(server: ServerView, frames: Seq<(Seq<u8>, Seq<u8>)>) -> ServerView
    decreases frames.len(),
{
    if frames.len() == 0 {
        server
    } else {
        after_pushes(server, frames.drop_last()).pushed(frames.last().0, frames.last().1)
    }
}

proof fn lemma_pushes(server: ServerView, frames: Seq<(Seq<u8>, Seq<u8>)>)
    ensures
        after_pushes(server, frames).sequence == server.sequence + frames.len(),
    decreases frames.len(),
{
    if frames.len() > 0 {
        lemma_pushes(server, frames.drop_last());
    }
}

/// However many frames were pushed since a connection last looked, it gets the newest of them, of
/// the eye that it asked for, unless its peer is gone.
pub proof fn law_connection_gets_the_newest_frame(
    server: ServerView,
    frames: Seq<(Seq<u8>, Seq<u8>)>,
    last_sequence: nat,
    eye: Eye,
    event: WaitEvent,
)
    requires
        frames.len() > 0,
        last_sequence <= server.sequence,
        event != (WaitEvent::TimedOut { peer_closed: true }),
    ensures
        after_pushes(server, frames).found(last_sequence, eye, event) == (WaitStepView::Frame {
            sequence: server.sequence + frames.len(),
            jpeg: match eye {
                Eye::Left => frames.last().0,
                Eye::Right => frames.last().1,
            },
        }),
{
    lemma_pushes(server, frames);
}

/// No connection keeps waiting on a server that was shut down, and a connection that sent the
/// newest frame gives up.
pub proof fn law_shutdown_ends_the_waiting(
    server: ServerView,
    last_sequence: nat,
    eye: Eye,
    event: WaitEvent,
)
    ensures
        !(server.stopped().found(last_sequence, eye, event) is Wait),
        server.stopped().found(server.sequence, eye, event) is GiveUp,
{
}

/// A connection gets the image of the eye that it asked for, of the newest frame, if that is not
/// the one it sent last. If it is, the connection waits while the server runs. One whose peer is
/// gone gives up whatever there is.
pub proof fn law_what_a_connection_finds(
    server: ServerView,
    last_sequence: nat,
    eye: Eye,
    event: WaitEvent,
)
    ensures
        server.found(last_sequence, eye, WaitEvent::TimedOut { peer_closed: true }) is GiveUp,
        event != (WaitEvent::TimedOut { peer_closed: true }) ==> {
            &&& server.sequence != last_sequence ==> {
                &&& server.found(last_sequence, Eye::Left, event) == (WaitStepView::Frame {
                    sequence: server.sequence,
                    jpeg: server.left_jpeg,
                })
                &&& server.found(last_sequence, Eye::Right, event) == (WaitStepView::Frame {
                    sequence: server.sequence,
                    jpeg: server.right_jpeg,
                })
            }
            &&& server.sequence == last_sequence && server.running ==> server.found(
                last_sequence,
                eye,
                event,
            ) is Wait
            &&& server.sequence == last_sequence && !server.running ==> server.found(
                last_sequence,
                eye,
                event,
            ) is GiveUp
        },
{
}

/// A pushed frame replaces both images and counts as one frame. Shutting down changes nothing but
/// that the server does not run.
pub proof fn law_pushing_replaces_both_images(
    server: ServerView,
    left_jpeg: Seq<u8>,
    right_jpeg: Seq<u8>,
)
    ensures
        server.pushed(left_jpeg, right_jpeg) == (ServerView {
            sequence: server.sequence + 1,
            left_jpeg,
            right_jpeg,
            running: server.running,
        }),
        server.stopped() == (ServerView { running: false, ..server }),
{
}

/// The model of a server is what it holds, and that of a step what it hands out.
pub proof fn law_server_is_modelled_as_it_is(server: EyeCameraServer, step: WaitStep)
    ensures
        server@.sequence == server.sequence,
        server@.left_jpeg == server.left_jpeg@,
        server@.right_jpeg == server.right_jpeg@,
        server@.running == server.running,
        step matches WaitStep::Frame { sequence, jpeg } ==> step@ == (WaitStepView::Frame {
            sequence: sequence as nat,
            jpeg: jpeg@,
        }),
        step is Wait <==> step@ is Wait,
        step is GiveUp <==> step@ is GiveUp,
{
}

} // verus!
