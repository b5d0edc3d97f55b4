//! One connection to the eye camera server, from its request to its end.
use crate::http::{
    fixed_response, index_bytes, is_blank, is_unexpected, law_parts_read_back,
    law_single_reads_back, more_headers, multipart_head, multipart_head_bytes, multipart_part,
    not_found_bytes, part_bytes, parts_bytes, path_of, read_parts, read_single, requested_route,
    route_of, single_bytes, single_response, Route, SendError,
};
use crate::server::{Eye, ServerView, WaitEvent, WaitStepView};
use crate::text::{ascii_lowercase, lowercase};
use vstd::prelude::*;
use vstd::utf8::is_ascii_chars;

verus! {

/// What a connection does next.
pub enum ConnectionStep {
    /// Read a line, then call `request_read`.
    ReadRequest,
    /// Read a line, then call `header_read`.
    ReadHeader,
    /// Send these bytes, then call `sent`.
    Send(Vec<u8>),
    /// Wait for a frame of this eye other than the one of this number, then call `awaited`.
    AwaitFrame { eye: Eye, last_sequence: u64 },
    /// Shut the connection down. `warn` says that sending failed, and not because the client went
    /// away.
    ShutDown { warn: bool },
    /// Drop the connection, nothing was asked on it.
    Leave,
}

/// The view of a `ConnectionStep`.
pub enum ConnectionStepView {
    ReadRequest,
    ReadHeader,
    Send(Seq<u8>),
    AwaitFrame { eye: Eye, last_sequence: u64 },
    ShutDown { warn: bool },
    Leave,
}

impl View for ConnectionStep {
    type V = ConnectionStepView;

    open spec fn view(&self) -> ConnectionStepView {
        match *self {
            ConnectionStep::ReadRequest => ConnectionStepView::ReadRequest,
            ConnectionStep::ReadHeader => ConnectionStepView::ReadHeader,
            ConnectionStep::Send(bytes) => ConnectionStepView::Send(bytes@),
            ConnectionStep::AwaitFrame { eye, last_sequence } => ConnectionStepView::AwaitFrame {
                eye,
                last_sequence,
            },
            ConnectionStep::ShutDown { warn } => ConnectionStepView::ShutDown { warn },
            ConnectionStep::Leave => ConnectionStepView::Leave,
        }
    }
}

/// A connection.
pub struct Connection {
    /// What the request asks for, of no account before it was read.
    pub route: Route,
    /// The number of the frame that was sent last, zero where none was.
    pub last_sequence: u64,
    pub step: ConnectionStep,
}

/// The view of a `Connection`.
pub struct ConnectionView {
    pub route: Route,
    pub last_sequence: u64,
    pub step: ConnectionStepView,
}

impl View for Connection {
    type V = ConnectionView;

    open spec fn view(&self) -> ConnectionView {
        ConnectionView {
            route: self.route,
            last_sequence: self.last_sequence,
            step: self.step@,
        }
    }
}

impl ConnectionView {
    /// With another step.
    pub open spec fn at(self, step: ConnectionStepView) -> ConnectionView {
        ConnectionView { step, ..self }
    }

    /// After the request line was read, or reading it failed.
    pub open spec fn after_request(self, line: Option<Seq<char>>) -> ConnectionView {
        match line {
            Some(line) => ConnectionView {
                route: route_of(lowercase(path_of(line))),
                step: ConnectionStepView::ReadHeader,
                ..self
            },
            None => self.at(ConnectionStepView::Leave),
        }
    }

    /// The first thing that the request is answered with.
    pub open spec fn answering(self) -> ConnectionView {
        self.at(
            match self.route {
                Route::Multipart(_) => ConnectionStepView::Send(multipart_head_bytes()),
                Route::Single(eye) => ConnectionStepView::AwaitFrame {
                    eye,
                    last_sequence: self.last_sequence,
                },
                Route::Index => ConnectionStepView::Send(index_bytes()),
                Route::NotFound => ConnectionStepView::Send(not_found_bytes()),
            },
        )
    }

    /// After a header line was read. The headers are passed over.
    pub open spec fn after_header(self, read: Option<usize>, line: Seq<char>) -> ConnectionView {
        if (read matches Some(count) && count > 0) && !is_blank(line) {
            self
        } else {
            self.answering()
        }
    }

    /// After bytes were sent, or sending them failed.
    pub open spec fn after_send(self, result: Result<(), SendError>) -> ConnectionView {
        self.at(
            match result {
                Err(error) => ConnectionStepView::ShutDown { warn: error is Other },
                Ok(()) => match self.route {
                    Route::Multipart(eye) => ConnectionStepView::AwaitFrame {
                        eye,
                        last_sequence: self.last_sequence,
                    },
                    _ => ConnectionStepView::ShutDown { warn: false },
                },
            },
        )
    }

    /// After the frame of a number came, or none will.
    pub open spec fn after_frame(self, frame: Option<(u64, Seq<u8>)>) -> ConnectionView {
        match (self.route, frame) {
            (Route::Multipart(_), Some((sequence, jpeg))) => ConnectionView {
                last_sequence: sequence,
                step: ConnectionStepView::Send(part_bytes(jpeg)),
                ..self
            },
            (Route::Multipart(_), None) => self.at(ConnectionStepView::ShutDown { warn: false }),
            (_, Some((_, jpeg))) => self.at(ConnectionStepView::Send(single_bytes(Some(jpeg)))),
            (_, None) => self.at(ConnectionStepView::Send(single_bytes(None))),
        }
    }
}

impl Connection {
    pub fn new() -> (connection: Self)
        ensures
            connection@ == (ConnectionView {
                route: Route::NotFound,
                last_sequence: 0,
                step: ConnectionStepView::ReadRequest,
            }),
    {
        Connection {
            route: Route::NotFound,
            last_sequence: 0,
            step: ConnectionStep::ReadRequest,
        }
    }

    /// Takes in the request line, or that it could not be read.
    pub fn request_read(&mut self, line: Option<&str>)
        requires
            old(self)@.step is ReadRequest,
        ensures
            final(self)@ == old(self)@.after_request(
                match line {
                    Some(line) => Some(line@),
                    None => None,
                },
            ),
            line matches Some(text) ==> is_ascii_chars(path_of(text@)) ==> final(self)@.route
                == route_of(path_of(text@).map_values(|c: char| ascii_lowercase(c))),
    {
        match line {
            Some(line) => {
                self.route = requested_route(line);
                self.step = ConnectionStep::ReadHeader;
            },
            None => {
                self.step = ConnectionStep::Leave;
            },
        }
    }

    /// Takes in how many bytes reading a line gave, if it could be read, and the line.
    pub fn header_read(&mut self, read: Option<usize>, line: &str)
        requires
            old(self)@.step is ReadHeader,
        ensures
            final(self)@ == old(self)@.after_header(read, line@),
    {
        if more_headers(read, line) {
            return;
        }
        self.step = match self.route {
            Route::Multipart(_) => ConnectionStep::Send(multipart_head()),
            Route::Single(eye) => ConnectionStep::AwaitFrame {
                eye,
                last_sequence: self.last_sequence,
            },
            _ => match fixed_response(self.route) {
                Some(response) => ConnectionStep::Send(response),
                None => ConnectionStep::Leave,
            },
        };
    }

    /// Takes in whether the bytes were sent.
    pub fn sent(&mut self, result: Result<(), SendError>)
        requires
            old(self)@.step is Send,
        ensures
            final(self)@ == old(self)@.after_send(result),
    {
        self.step = match result {
            Err(error) => ConnectionStep::ShutDown { warn: is_unexpected(error) },
            Ok(()) => match self.route {
                Route::Multipart(eye) => ConnectionStep::AwaitFrame {
                    eye,
                    last_sequence: self.last_sequence,
                },
                _ => ConnectionStep::ShutDown { warn: false },
            },
        };
    }

    /// Takes in the frame that came with its number, or that none will come.
    pub fn awaited(&mut self, frame: Option<(u64, &Vec<u8>)>)
        requires
            old(self)@.step is AwaitFrame,
        ensures
            final(self)@ == old(self)@.after_frame(
                match frame {
                    Some((sequence, jpeg)) => Some((sequence, jpeg@)),
                    None => None,
                },
            ),
    {
        match (self.route, frame) {
            (Route::Multipart(_), Some((sequence, jpeg))) => {
                self.last_sequence = sequence;
                self.step = ConnectionStep::Send(multipart_part(jpeg));
            },
            (Route::Multipart(_), None) => {
                self.step = ConnectionStep::ShutDown { warn: false };
            },
            (_, Some((_, jpeg))) => {
                self.step = ConnectionStep::Send(single_response(Some(jpeg)));
            },
            (_, None) => {
                self.step = ConnectionStep::Send(single_response(None));
            },
        }
    }
}

/// The bytes that a connection is about to send.
pub open spec fn outgoing(connection: ConnectionView) -> Seq<u8> {
    match connection.step {
        ConnectionStepView::Send(bytes) => bytes,
        _ => Seq::empty(),
    }
}

/// What a connection sends while these frames come and nothing goes wrong.
pub open spec fn sent_for(connection: ConnectionView, frames: Seq<(u64, Seq<u8>)>) -> Seq<u8>
    decreases frames.len(),
{
    if frames.len() == 0 {
        Seq::empty()
    } else {
        let sending = connection.after_frame(Some(frames[0]));
        outgoing(sending) + sent_for(sending.after_send(Ok(())), frames.skip(1))
    }
}

/// The images of frames.
pub open spec fn images(frames: Seq<(u64, Seq<u8>)>) -> Seq<Seq<u8>> {
    frames.map_values(|frame: (u64, Seq<u8>)| frame.1)
}

proof fn lemma_sent_for(connection: ConnectionView, frames: Seq<(u64, Seq<u8>)>)
    requires
        connection.route is Multipart,
    ensures
        sent_for(connection, frames) == parts_bytes(images(frames)),
    decreases frames.len(),
{
    if frames.len() > 0 {
        let sending = connection.after_frame(Some(frames[0]));
        lemma_sent_for(sending.after_send(Ok(())), frames.skip(1));
        assert(images(frames)[0] == frames[0].1);
        assert(images(frames).skip(1) =~= images(frames.skip(1)));
    }
}

/// A request for a stream is answered with the head of a stream and then with every frame that
/// comes: a client reads back exactly their images, in order. The connection is shut down when no
/// more frames will come.
pub proof fn law_stream_hands_on_every_frame(
    connection: ConnectionView,
    frames: Seq<(u64, Seq<u8>)>,
)
    requires
        connection.route is Multipart,
    ensures
        ({
            let started = connection.answering();
            let waiting = started.after_send(Ok(()));
            &&& started.step == ConnectionStepView::Send(multipart_head_bytes())
            &&& waiting.step is AwaitFrame
            &&& read_parts(sent_for(waiting, frames)) == images(frames)
            &&& waiting.after_frame(None).step == (ConnectionStepView::ShutDown { warn: false })
        }),
{
    let waiting = connection.answering().after_send(Ok(()));
    lemma_sent_for(waiting, frames);
    law_parts_read_back(images(frames));
}

/// A request for one image is answered with the first frame that comes, which a client reads back,
/// or with the message that there is none, and then the connection is shut down.
pub proof fn law_single_request_gets_one_frame(
    connection: ConnectionView,
    sequence: u64,
    jpeg: Seq<u8>,
)
    requires
        connection.route is Single,
    ensures
        ({
            let waiting = connection.answering();
            let sending = waiting.after_frame(Some((sequence, jpeg)));
            let refusing = waiting.after_frame(None);
            &&& waiting.step is AwaitFrame
            &&& read_single(outgoing(sending)) == Some(jpeg)
            &&& sending.after_send(Ok(())).step == (ConnectionStepView::ShutDown { warn: false })
            &&& outgoing(refusing) == single_bytes(None)
            &&& refusing.after_send(Ok(())).step == (ConnectionStepView::ShutDown { warn: false })
        }),
{
    law_single_reads_back(jpeg);
}

/// A request for anything else is answered with one response, after which the connection is shut
/// down.
pub proof fn law_other_requests_get_one_response(connection: ConnectionView)
    requires
        connection.route is Index || connection.route is NotFound,
    ensures
        connection.answering().step == ConnectionStepView::Send(
            if connection.route is Index {
                index_bytes()
            } else {
                not_found_bytes()
            },
        ),
        connection.answering().after_send(Ok(())).step == (ConnectionStepView::ShutDown {
            warn: false,
        }),
{
}

/// A connection that asks for images of an eye waits for frames of that eye alone, newer than the
/// one that it sent last: for a stream after everything it sends, for one image at once. No other
/// connection waits for frames.
pub proof fn law_connection_waits_for_its_own_eye(connection: ConnectionView, eye: Eye)
    ensures
        ({
            let waiting = ConnectionStepView::AwaitFrame {
                eye,
                last_sequence: connection.last_sequence,
            };
            &&& connection.route == Route::Multipart(eye) ==> {
                &&& connection.after_send(Ok(())).step == waiting
                &&& connection.answering().step is Send
            }
            &&& connection.route == Route::Single(eye) ==> {
                &&& connection.answering().step == waiting
                &&& !(connection.after_send(Ok(())).step is AwaitFrame)
            }
            &&& connection.route is Index || connection.route is NotFound ==> {
                &&& !(connection.answering().step is AwaitFrame)
                &&& !(connection.after_send(Ok(())).step is AwaitFrame)
            }
        }),
{
}

/// What a connection asks for stays what it was, whatever is sent or comes. The number of the last
/// frame changes only with a frame that a stream gets, to the number of that one.
pub proof fn law_connection_keeps_its_route(
    connection: ConnectionView,
    result: Result<(), SendError>,
    frame: Option<(u64, Seq<u8>)>,
    read: Option<usize>,
    line: Seq<char>,
)
    ensures
        connection.answering().route == connection.route,
        connection.after_header(read, line).route == connection.route,
        connection.after_send(result).route == connection.route,
        connection.after_frame(frame).route == connection.route,
        connection.answering().last_sequence == connection.last_sequence,
        connection.after_header(read, line).last_sequence == connection.last_sequence,
        connection.after_send(result).last_sequence == connection.last_sequence,
        connection.route is Multipart && frame is Some ==> connection.after_frame(
            frame,
        ).last_sequence == (frame->0).0,
        !(connection.route is Multipart && frame is Some) ==> connection.after_frame(
            frame,
        ).last_sequence == connection.last_sequence,
        connection.after_request(None).last_sequence == connection.last_sequence,
        connection.after_request(Some(line)).last_sequence == connection.last_sequence,
{
}

/// Header lines are passed over up to a blank one, or to where nothing more can be read, and then
/// the request is answered.
pub proof fn law_request_is_answered_after_the_headers(
    connection: ConnectionView,
    count: usize,
    line: Seq<char>,
)
    ensures
        count > 0 && !is_blank(line) ==> connection.after_header(Some(count), line) == connection,
        is_blank(line) ==> connection.after_header(Some(count), line) == connection.answering(),
        connection.after_header(Some(0), line) == connection.answering(),
        connection.after_header(None, line) == connection.answering(),
{
}

/// A request that could not be read is left alone. One that was goes by its path in lower case.
pub proof fn law_request_goes_by_its_path(connection: ConnectionView, line: Seq<char>)
    ensures
        connection.after_request(None).step is Leave,
        connection.after_request(Some(line)).step is ReadHeader,
        connection.after_request(Some(line)).route == route_of(lowercase(path_of(line))),
{
}

/// A failure to send ends the connection, with a warning unless the client went away.
pub proof fn law_failed_sending_ends_the_connection(connection: ConnectionView)
    ensures
        connection.after_send(Err(SendError::BrokenPipe)).step == (ConnectionStepView::ShutDown {
            warn: false,
        }),
        connection.after_send(Err(SendError::ConnectionReset)).step == (
        ConnectionStepView::ShutDown { warn: false }),
        connection.after_send(Err(SendError::ConnectionAborted)).step == (
        ConnectionStepView::ShutDown { warn: false }),
        connection.after_send(Err(SendError::Other)).step == (ConnectionStepView::ShutDown {
            warn: true,
        }),
{
}

/// What a connection sends over a server that gets these frames, of the left and of the right eye,
/// one at a time. It looks for a frame after each of them.
pub open spec fn sent_from(
    server: ServerView,
    connection: ConnectionView,
    frames: Seq<(Seq<u8>, Seq<u8>)>,
) -> Seq<u8>
    decreases frames.len(),
{
    if frames.len() == 0 {
        Seq::empty()
    } else {
        let pushed = server.pushed(frames[0].0, frames[0].1);
        match connection.step {
            ConnectionStepView::AwaitFrame { eye, last_sequence } => {
                match pushed.found(last_sequence as nat, eye, WaitEvent::Woken) {
                    WaitStepView::Frame { sequence, jpeg } => {
                        let sending = connection.after_frame(Some((sequence as u64, jpeg)));
                        outgoing(sending) + sent_from(
                            pushed,
                            sending.after_send(Ok(())),
                            frames.skip(1),
                        )
                    },
                    _ => sent_from(pushed, connection, frames.skip(1)),
                }
            },
            _ => Seq::empty(),
        }
    }
}

/// A client of the left eye's stream reads back exactly the left images that the server gets, in
/// order, and one of the right eye's stream the right images.
pub proof fn law_client_reads_the_images_of_its_eye(
    server: ServerView,
    connection: ConnectionView,
    frames: Seq<(Seq<u8>, Seq<u8>)>,
)
    requires
        connection.route is Multipart,
        connection.last_sequence <= server.sequence,
        server.sequence + frames.len() <= u64::MAX,
    ensures
        connection.route == Route::Multipart(Eye::Left) ==> read_parts(
            sent_from(server, connection.answering().after_send(Ok(())), frames),
        ) == frames.map_values(|frame: (Seq<u8>, Seq<u8>)| frame.0),
        connection.route == Route::Multipart(Eye::Right) ==> read_parts(
            sent_from(server, connection.answering().after_send(Ok(())), frames),
        ) == frames.map_values(|frame: (Seq<u8>, Seq<u8>)| frame.1),
{
    let waiting = connection.answering().after_send(Ok(()));
    let eye = connection.route->Multipart_0;
    lemma_sent_from(server, waiting, frames, eye);
    let seen = frames.map_values(|frame: (Seq<u8>, Seq<u8>)| eye_of(frame, eye));
    law_parts_read_back(seen);
    if eye == Eye::Left {
        assert(seen =~= frames.map_values(|frame: (Seq<u8>, Seq<u8>)| frame.0));
    } else {
        assert(seen =~= frames.map_values(|frame: (Seq<u8>, Seq<u8>)| frame.1));
    }
}

spec fn eye_of(frame: (Seq<u8>, Seq<u8>), eye: Eye) -> Seq<u8> {
    match eye {
        Eye::Left => frame.0,
        Eye::Right => frame.1,
    }
}

proof fn lemma_sent_from(
    server: ServerView,
    connection: ConnectionView,
    frames: Seq<(Seq<u8>, Seq<u8>)>,
    eye: Eye,
)
    requires
        connection.route == Route::Multipart(eye),
        connection.step == (ConnectionStepView::AwaitFrame {
            eye,
            last_sequence: connection.last_sequence,
        }),
        connection.last_sequence <= server.sequence,
        server.sequence + frames.len() <= u64::MAX,
    ensures
        sent_from(server, connection, frames) == parts_bytes(
            frames.map_values(|frame: (Seq<u8>, Seq<u8>)| eye_of(frame, eye)),
        ),
    decreases frames.len(),
{
    let seen = frames.map_values(|frame: (Seq<u8>, Seq<u8>)| eye_of(frame, eye));
    if frames.len() > 0 {
        let pushed = server.pushed(frames[0].0, frames[0].1);
        let jpeg = eye_of(frames[0], eye);
        let sending = connection.after_frame(Some((pushed.sequence as u64, jpeg)));
        lemma_sent_from(pushed, sending.after_send(Ok(())), frames.skip(1), eye);
        assert(seen[0] == jpeg);
        assert(seen.skip(1) =~= frames.skip(1).map_values(
            |frame: (Seq<u8>, Seq<u8>)| eye_of(frame, eye),
        ));
    }
}

/// The model of a connection is what it holds.
pub proof fn law_connection_is_modelled_as_it_is(connection: Connection)
    ensures
        connection@.route == connection.route,
        connection@.last_sequence == connection.last_sequence,
        connection.step is ReadRequest <==> connection@.step is ReadRequest,
        connection.step is ReadHeader <==> connection@.step is ReadHeader,
        connection.step is Leave <==> connection@.step is Leave,
        connection.step matches ConnectionStep::Send(bytes) ==> connection@.step
            == ConnectionStepView::Send(bytes@),
        connection.step matches ConnectionStep::AwaitFrame { eye, last_sequence }
            ==> connection@.step == (ConnectionStepView::AwaitFrame { eye, last_sequence }),
        connection.step matches ConnectionStep::ShutDown { warn } ==> connection@.step == (
        ConnectionStepView::ShutDown { warn }),
{
}

} // verus!
