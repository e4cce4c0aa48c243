//! The client side of the `EmulatorController` gRPC service: its messages, the requests that the
//! client sends and what it makes of the replies.
use crate::text;
use vstd::prelude::*;

verus! {

// ---------------------------------------------------------------------------------------------
// Messages of emulator_controller.proto
// ---------------------------------------------------------------------------------------------

#[derive(Clone, Debug, Default, PartialEq)]
pub struct ImageFormat {
    /// ImgFormat enum: 0 = PNG, 1 = RGBA8888, 2 = RGB888
    pub format: i32,
    pub width: u32,
    pub height: u32,
    pub display: u32,
}

#[derive(Clone, Debug, Default, PartialEq)]
pub struct Image {
    pub format: Option<ImageFormat>,
    /// Deprecated top-level width/height, still populated by some builds.
    pub width: u32,
    pub height: u32,
    /// Raw pixel bytes in the format specified by `ImageFormat::format`.
    pub image: Vec<u8>,
    pub seq: u32,
}

#[derive(Clone, Debug, Default, PartialEq)]
pub struct Touch {
    pub x: i32,
    pub y: i32,
    pub identifier: i32,
    /// Non-zero while the finger is down; 0 to release.
    pub pressure: i32,
}

#[derive(Clone, Debug, Default, PartialEq)]
pub struct TouchEvent {
    pub touches: Vec<Touch>,
    pub display: i32,
}

#[derive(Clone, Debug, Default, PartialEq)]
pub struct MouseEvent {
    pub x: i32,
    pub y: i32,
    /// 0 = no button, 1 = left button pressed.
    pub buttons: i32,
    pub display: i32,
}

#[derive(Clone, Debug, PartialEq)]
pub struct KeyboardEvent {
    /// KeyCodeType: 0=Usb, 1=Evdev, 2=XKB, 3=Win, 4=Mac
    pub code_type: i32,
    /// KeyEventType: 0=keydown, 1=keyup, 2=keypress
    pub event_type: i32,
    pub key_code: i32,
    /// W3C key string, e.g. "GoHome", "GoBack", "a".
    pub key: String,
    /// UTF-8 text to inject.
    pub text: String,
}

impl Default for KeyboardEvent {
    fn default() -> (event: KeyboardEvent)
        ensures
            event.code_type == 0,
            event.event_type == 0,
            event.key_code == 0,
            event.key@ == Seq::<char>::empty(),
            event.text@ == Seq::<char>::empty(),
    {
        KeyboardEvent {
            code_type: 0,
            event_type: 0,
            key_code: 0,
            key: String::new(),
            text: String::new(),
        }
    }
}

/// `google.protobuf.Empty`: zero bytes on the wire.
#[derive(Clone, Debug, Default, PartialEq)]
pub struct Empty {}

/// A single frame received from the emulator in RGBA8888 format.
#[derive(Clone, Debug, PartialEq)]
pub struct RgbaFrame {
    pub width: u32,
    pub height: u32,
    /// Raw pixel bytes: width x height x 4, RGBA order, top-left origin.
    pub data: Vec<u8>,
}

// ---------------------------------------------------------------------------------------------
// Method paths and stream settings
// ---------------------------------------------------------------------------------------------

pub const STREAM_SCREENSHOT_PATH: &'static str =
    "/android.emulation.control.EmulatorController/streamScreenshot";

pub const SEND_TOUCH_PATH: &'static str = "/android.emulation.control.EmulatorController/sendTouch";

pub const SEND_MOUSE_PATH: &'static str = "/android.emulation.control.EmulatorController/sendMouse";

pub const SEND_KEY_PATH: &'static str = "/android.emulation.control.EmulatorController/sendKey";

/// The largest screenshot message that the client decodes: 32 MiB.
pub const MAX_SCREENSHOT_MESSAGE_BYTES: usize = 33_554_432;

/// The stream is asked for at a smaller size than the device's, to reduce decode and render load.
pub const STREAM_TARGET_WIDTH: u32 = 720;

pub const STREAM_TARGET_HEIGHT: u32 = 1280;

/// The `ImgFormat` of 32-bit RGBA pixels.
pub const RGBA8888: i32 = 1;

/// The `KeyEventType` of a key that goes down and up again.
pub const KEYPRESS: i32 = 2;

/// The host and scheme of every emulator's gRPC server, up to its port.
pub const LOOPBACK: &'static str = "http://127.0.0.1:";

// ---------------------------------------------------------------------------------------------
// Frames
// ---------------------------------------------------------------------------------------------

/// The width and height of the picture in `image`: those of its format where both are set, else
/// the deprecated top-level ones.
pub open spec fn image_size(image: Image) -> (u32, u32) {
    match image.format {
        Some(format) if format.width > 0 && format.height > 0 => (format.width, format.height),
        _ => (image.width, image.height),
    }
}

/// The frame that an image message carries: none where the picture has no area, or not four bytes
/// for each of its pixels.
pub open spec fn frame_in(image: Image) -> Option<RgbaFrame> {
    let (width, height) = image_size(image);
    if width == 0 || height == 0 || image.image@.len() != width * height * 4 {
        None
    } else {
        Some(RgbaFrame { width, height, data: image.image })
    }
}

/// Extracts `(width, height)` from an `Image`, preferring the nested
/// `ImageFormat` fields and falling back to the deprecated top-level fields.
pub fn frame_dimensions(image: &Image) -> (size: (u32, u32))
    ensures
        size == image_size(*image),
{
    if let Some(format) = &image.format {
        if format.width > 0 && format.height > 0 {
            return (format.width, format.height);
        }
    }
    (image.width, image.height)
}

/// The frame that an image message carries, if it carries one.
pub fn decode_frame(image: Image) -> (frame: Option<RgbaFrame>)
    ensures
        frame == frame_in(image),
{
    let (width, height) = frame_dimensions(&image);
    if width == 0 || height == 0 {
        return None;
    }
    assert(0 <= width * height <= 0xffff_ffff * 0xffff_ffff) by (nonlinear_arith)
        requires
            0 <= width <= 0xffff_ffff,
            0 <= height <= 0xffff_ffff,
    ;
    let bytes: u128 = width as u128 * height as u128 * 4;
    if image.image.len() as u128 != bytes {
        return None;
    }
    Some(RgbaFrame { width, height, data: image.image })
}

/// What happens to a screenshot stream.
pub enum StreamEvent {
    /// The stream delivered a message.
    Message(Image),
    /// Reading the next message failed.
    ReadFailed,
    /// The emulator closed the stream.
    Ended,
    /// The display took the last frame.
    Delivered,
    /// The display is gone.
    ReceiverClosed,
}

/// What to do with a screenshot stream next.
pub enum StreamAction {
    /// Hand the frame to the display.
    Forward(RgbaFrame),
    /// Wait for the next message.
    ReadNext,
    /// Stop streaming; all is well.
    Finish,
    /// Stop streaming with the read error.
    Fail,
}

/// What follows on each event: messages without a frame are passed over, the others are forwarded,
/// and streaming goes on until the stream ends, fails or nobody takes its frames.
pub open spec fn stream_reaction(event: StreamEvent) -> StreamAction {
    match event {
        StreamEvent::Message(image) => match frame_in(image) {
            Some(frame) => StreamAction::Forward(frame),
            None => StreamAction::ReadNext,
        },
        StreamEvent::ReadFailed => StreamAction::Fail,
        StreamEvent::Ended => StreamAction::Finish,
        StreamEvent::Delivered => StreamAction::ReadNext,
        StreamEvent::ReceiverClosed => StreamAction::Finish,
    }
}

/// Decides what a screenshot stream does next.
pub fn stream_step(event: StreamEvent) -> (action: StreamAction)
    ensures
        action == stream_reaction(event),
{
    match event {
        StreamEvent::Message(image) => match decode_frame(image) {
            Some(frame) => StreamAction::Forward(frame),
            None => StreamAction::ReadNext,
        },
        StreamEvent::ReadFailed => StreamAction::Fail,
        StreamEvent::Ended => StreamAction::Finish,
        StreamEvent::Delivered => StreamAction::ReadNext,
        StreamEvent::ReceiverClosed => StreamAction::Finish,
    }
}

/// Whether an event is a message that carries a frame.
pub open spec fn carries_frame(event: StreamEvent) -> bool {
    event matches StreamEvent::Message(image) && frame_in(image) is Some
}

/// The frames that the messages among `events` carry, in order.
pub open spec fn frames_in(events: Seq<StreamEvent>) -> Seq<RgbaFrame> {
    events.filter(|event: StreamEvent| carries_frame(event)).map_values(
        |event: StreamEvent| frame_in(event->Message_0)->0,
    )
}

/// Whether streaming stops at an event.
pub open spec fn ends_stream(event: StreamEvent) -> bool {
    event is Ended || event is ReceiverClosed || event is ReadFailed
}

/// How streaming ended.
pub enum StreamEnd {
    /// All is well.
    Finished,
    /// With the read error.
    Failed,
}

/// What became of a screenshot stream: the frames that were handed to the display, in order, and
/// how streaming ended, if it has.
pub struct StreamRun {
    pub forwarded: Seq<RgbaFrame>,
    pub end: Option<StreamEnd>,
}

/// What becomes of a screenshot stream on which `events` happen. Streaming returns as soon as it is
/// told to finish or to fail, and what happens later has no effect.
pub open spec fn stream_run(events: Seq<StreamEvent>) -> StreamRun
    decreases events.len(),
{
    if events.len() == 0 {
        StreamRun { forwarded: Seq::empty(), end: None }
    } else {
        let before = stream_run(events.drop_last());
        if before.end is Some {
            before
        } else {
            match stream_reaction(events.last()) {
                StreamAction::Forward(frame) => StreamRun {
                    forwarded: before.forwarded.push(frame),
                    end: None,
                },
                StreamAction::ReadNext => before,
                StreamAction::Finish => StreamRun { end: Some(StreamEnd::Finished), ..before },
                StreamAction::Fail => StreamRun { end: Some(StreamEnd::Failed), ..before },
            }
        }
    }
}

/// Streaming goes on up to the first event `end` that stops it, and no further. Each frame that the
/// stream delivers before that event is forwarded, once and in order, and nothing else is. Streaming
/// ends well when, and only when, that event is the end of the stream or the loss of the display; it
/// fails when, and only when, that event is a failed read. Where no event stops it (`end` is then the
/// number of events) it has not ended.
pub proof fn lemma_stream_stops_at_the_first_end(events: Seq<StreamEvent>, end: int)
    requires
        0 <= end <= events.len(),
        forall|i: int| 0 <= i < end ==> !ends_stream(#[trigger] events[i]),
        end < events.len() ==> ends_stream(events[end]),
    ensures
        stream_run(events).forwarded == frames_in(events.take(end)),
        stream_run(events).end is None <==> end == events.len(),
        stream_run(events).end == Some(StreamEnd::Finished) <==> end < events.len() && (
        events[end] is Ended || events[end] is ReceiverClosed),
        stream_run(events).end == Some(StreamEnd::Failed) <==> end < events.len()
            && events[end] is ReadFailed,
    decreases events.len(),
{
    if events.len() == 0 {
        reveal(Seq::filter);
    } else {
        let init = events.drop_last();
        if end < events.len() {
            lemma_stream_stops_at_the_first_end(init, end);
            assert(init.take(end) =~= events.take(end));
        } else {
            lemma_stream_stops_at_the_first_end(init, end - 1);
            assert(init.take(end - 1) =~= init);
            assert(events.take(end) =~= events);
            lemma_frames_in_step(events);
        }
    }
}

/// The last event adds the frame that it carries, if it carries one.
proof fn lemma_frames_in_step(events: Seq<StreamEvent>)
    requires
        events.len() > 0,
    ensures
        frames_in(events) == if carries_frame(events.last()) {
            frames_in(events.drop_last()).push(frame_in(events.last()->Message_0)->0)
        } else {
            frames_in(events.drop_last())
        },
{
    reveal(Seq::filter);
}

/// A message is forwarded when, and only when, its picture has an area and four bytes for each pixel
/// of it; the frame then has that size and exactly the message's bytes. The size is the nested one
/// where both its sides are set, else the top-level one. Any other message is passed over.
pub proof fn lemma_whole_pictures_are_forwarded(image: Image, width: u32, height: u32)
    requires
        match image.format {
            Some(format) => if format.width > 0 && format.height > 0 {
                width == format.width && height == format.height
            } else {
                width == image.width && height == image.height
            },
            None => width == image.width && height == image.height,
        },
    ensures
        width > 0 && height > 0 && image.image@.len() == width * height * 4 ==> stream_reaction(
            StreamEvent::Message(image),
        ) == StreamAction::Forward(RgbaFrame { width, height, data: image.image }),
        !(width > 0 && height > 0 && image.image@.len() == width * height * 4) ==> stream_reaction(
            StreamEvent::Message(image),
        ) is ReadNext,
        image_size(image) == (width, height),
        frame_in(image) is Some <==> width > 0 && height > 0 && image.image@.len() == width * height
            * 4,
        frame_in(image) matches Some(frame) ==> frame.width == width && frame.height == height
            && frame.data == image.image,
{
}

/// A picture of the size that the stream is asked for fits into the largest message that is decoded.
pub proof fn lemma_requested_pictures_are_decoded()
    ensures
        STREAM_TARGET_WIDTH * STREAM_TARGET_HEIGHT * 4 <= MAX_SCREENSHOT_MESSAGE_BYTES,
{
}

/// The next message is read after each frame that the display took; a read that fails ends the
/// stream with its error, and nothing but a message brings a frame.
pub proof fn lemma_stream_goes_on(event: StreamEvent)
    ensures
        event is Delivered ==> stream_reaction(event) is ReadNext,
        stream_reaction(event) is Fail <==> event is ReadFailed,
        stream_reaction(event) is Forward ==> event is Message,
{
}

/// Streaming ends well when, and only when, the stream ends or the display is gone.
pub proof fn lemma_stream_finishes(event: StreamEvent)
    ensures
        stream_reaction(event) is Finish <==> (event is Ended || event is ReceiverClosed),
{
}

/// A forwarded frame has an area, and four bytes for each pixel of it.
pub proof fn lemma_forwarded_frames_are_not_empty(event: StreamEvent)
    ensures
        stream_reaction(event) matches StreamAction::Forward(frame) ==> frame.width > 0
            && frame.height > 0 && frame.data@.len() > 0 && frame.data@.len() == frame.width
            * frame.height * 4,
{
    if let StreamAction::Forward(frame) = stream_reaction(event) {
        assert(frame.width * frame.height > 0) by (nonlinear_arith)
            requires
                frame.width > 0,
                frame.height > 0,
        ;
    }
}

// ---------------------------------------------------------------------------------------------
// Connecting
// ---------------------------------------------------------------------------------------------

/// The address of the gRPC server at `grpc_port`.
pub open spec fn loopback_endpoint(grpc_port: u16) -> Seq<char> {
    LOOPBACK@ + text::decimal(grpc_port as nat)
}

/// Whether `tonic::transport::Channel::from_shared` takes `endpoint` for an address.
pub uninterp spec fn endpoint_accepted(endpoint: Seq<char>) -> bool;

/// `tonic::transport::Channel::from_shared` parses an address without connecting to it. Whether it
/// takes `endpoint` is a function of the text alone; which texts it takes is the grammar of
/// `http::Uri` and is left to the named result.
#[verifier::external_body]
fn accepts_endpoint(endpoint: &str) -> (accepted: bool)
    ensures
        accepted == endpoint_accepted(endpoint@),
{
    tonic::transport::Channel::from_shared(endpoint.to_string()).is_ok()
}

/// Why there is no connection to an emulator.
#[derive(Clone, Copy, Debug, PartialEq, Eq)]
pub enum ConnectError {
    /// The address is no valid endpoint.
    InvalidEndpoint,
    /// The only attempt failed.
    Refused { grpc_port: u16 },
    /// The last of several attempts failed.
    Exhausted { grpc_port: u16, attempt: usize, max_attempts: usize },
    /// No attempt was allowed.
    NoAttempts { grpc_port: u16, max_attempts: usize },
}

/// The message of each error.
pub open spec fn connect_error_text(error: ConnectError) -> Seq<char> {
    match error {
        ConnectError::InvalidEndpoint => "invalid gRPC endpoint"@,
        ConnectError::Refused { grpc_port } => {
            "failed to connect to emulator gRPC server on port "@ + text::decimal(grpc_port as nat)
        },
        ConnectError::Exhausted { grpc_port, attempt, max_attempts } => {
            "failed to connect to emulator gRPC server on port "@ + text::decimal(grpc_port as nat)
                + " (attempt "@ + text::decimal(attempt as nat) + "/"@ + text::decimal(
                max_attempts as nat,
            ) + ")"@
        },
        ConnectError::NoAttempts { grpc_port, max_attempts } => {
            "failed to connect to emulator gRPC server on port "@ + text::decimal(grpc_port as nat)
                + " after "@ + text::decimal(max_attempts as nat) + " attempts"@
        },
    }
}

impl ConnectError {
    /// The message for the log.
    pub fn message(&self) -> (message: String)
        ensures
            message@ == connect_error_text(*self),
    {
        let failed = "failed to connect to emulator gRPC server on port ".to_string();
        match self {
            ConnectError::InvalidEndpoint => "invalid gRPC endpoint".to_string(),
            ConnectError::Refused { grpc_port } => failed.concat(
                text::decimal_string(*grpc_port as u64).as_str(),
            ),
            ConnectError::Exhausted { grpc_port, attempt, max_attempts } => failed.concat(
                text::decimal_string(*grpc_port as u64).as_str(),
            ).concat(" (attempt ").concat(text::decimal_string(*attempt as u64).as_str()).concat(
                "/",
            ).concat(text::decimal_string(*max_attempts as u64).as_str()).concat(")"),
            ConnectError::NoAttempts { grpc_port, max_attempts } => failed.concat(
                text::decimal_string(*grpc_port as u64).as_str(),
            ).concat(" after ").concat(text::decimal_string(*max_attempts as u64).as_str()).concat(
                " attempts",
            ),
        }
    }
}

/// A message for one of the service's methods.
pub struct GrpcRequest<M> {
    pub path: &'static str,
    pub message: M,
}

/// Speaks the `EmulatorController` gRPC service of one emulator: it knows the server's address and
/// writes the requests that are sent there.
#[derive(Clone, Debug)]
pub struct EmulatorClient {
    pub grpc_port: u16,
    /// `http://127.0.0.1:<grpc_port>`
    pub endpoint: String,
}

/// Connection attempts under way.
#[derive(Clone, Debug)]
pub struct ConnectTask {
    pub client: EmulatorClient,
    /// The attempt being made, counted from one.
    pub attempt: usize,
    pub max_attempts: usize,
}

/// What follows on a failed attempt.
#[derive(Clone, Copy, Debug, PartialEq, Eq)]
pub enum RetryDecision {
    /// Wait for the retry delay, then try once more.
    RetryAfterDelay,
    /// Report the error.
    GiveUp(ConnectError),
}

impl EmulatorClient {
    /// Whether the client speaks to the emulator at `grpc_port`.
    pub open spec fn is_for(self, grpc_port: u16) -> bool {
        self.grpc_port == grpc_port && self.endpoint@ == loopback_endpoint(grpc_port)
    }

    /// The address of the gRPC server at `grpc_port`.
    pub fn endpoint_for(grpc_port: u16) -> (endpoint: String)
        ensures
            endpoint@ == loopback_endpoint(grpc_port),
    {
        LOOPBACK.to_string().concat(text::decimal_string(grpc_port as u64).as_str())
    }

    /// The client for the emulator at `grpc_port`, given whether its address is a valid endpoint.
    pub fn at_port(grpc_port: u16, accepted: bool) -> (client: Result<EmulatorClient, ConnectError>)
        ensures
            match client {
                Ok(client) => accepted && client.is_for(grpc_port),
                Err(error) => !accepted && error == ConnectError::InvalidEndpoint,
            },
    {
        if accepted {
            Ok(EmulatorClient { grpc_port, endpoint: EmulatorClient::endpoint_for(grpc_port) })
        } else {
            Err(ConnectError::InvalidEndpoint)
        }
    }

    /// The client that opens a connection to the emulator's gRPC server at
    /// `http://127.0.0.1:<grpc_port>`.
    pub fn connect(grpc_port: u16) -> (client: Result<EmulatorClient, ConnectError>)
        ensures
            match client {
                Ok(client) => endpoint_accepted(loopback_endpoint(grpc_port)) && client.is_for(
                    grpc_port,
                ),
                Err(error) => !endpoint_accepted(loopback_endpoint(grpc_port)) && error
                    == ConnectError::InvalidEndpoint,
            },
    {
        let endpoint = EmulatorClient::endpoint_for(grpc_port);
        EmulatorClient::at_port(grpc_port, accepts_endpoint(endpoint.as_str()))
    }

    /// What a single connection attempt comes to, given whether the server answered.
    pub fn connected(self, answered: bool) -> (client: Result<EmulatorClient, ConnectError>)
        ensures
            match client {
                Ok(client) => answered && client == self,
                Err(error) => !answered && error == (ConnectError::Refused {
                    grpc_port: self.grpc_port,
                }),
            },
    {
        if answered {
            Ok(self)
        } else {
            Err(ConnectError::Refused { grpc_port: self.grpc_port })
        }
    }

    /// The first attempt to reach the emulator at `grpc_port`, given whether its address is a valid
    /// endpoint.
    pub fn first_attempt(grpc_port: u16, max_attempts: usize, accepted: bool) -> (task: Result<
        ConnectTask,
        ConnectError,
    >)
        ensures
            match task {
                Ok(task) => {
                    &&& max_attempts > 0 && accepted
                    &&& task.client.is_for(grpc_port)
                    &&& task.attempt == 1
                    &&& task.max_attempts == max_attempts
                },
                Err(error) => if max_attempts == 0 {
                    error == (ConnectError::NoAttempts { grpc_port, max_attempts })
                } else {
                    !accepted && error == ConnectError::InvalidEndpoint
                },
            },
    {
        if max_attempts == 0 {
            return Err(ConnectError::NoAttempts { grpc_port, max_attempts });
        }
        match EmulatorClient::at_port(grpc_port, accepted) {
            Ok(client) => Ok(ConnectTask { client, attempt: 1, max_attempts }),
            Err(error) => Err(error),
        }
    }

    /// Begins to connect to the emulator's gRPC server with retries.
    pub fn connect_with_retry(grpc_port: u16, max_attempts: usize) -> (task: Result<
        ConnectTask,
        ConnectError,
    >)
        ensures
            match task {
                Ok(task) => {
                    &&& max_attempts > 0 && endpoint_accepted(loopback_endpoint(grpc_port))
                    &&& task.client.is_for(grpc_port)
                    &&& task.attempt == 1
                    &&& task.max_attempts == max_attempts
                },
                Err(error) => if max_attempts == 0 {
                    error == (ConnectError::NoAttempts { grpc_port, max_attempts })
                } else {
                    !endpoint_accepted(loopback_endpoint(grpc_port)) && error
                        == ConnectError::InvalidEndpoint
                },
            },
    {
        let endpoint = EmulatorClient::endpoint_for(grpc_port);
        EmulatorClient::first_attempt(grpc_port, max_attempts, accepts_endpoint(endpoint.as_str()))
    }

    /// The request that starts the screenshot stream.
    pub fn stream_frames(&self) -> (request: GrpcRequest<ImageFormat>)
        ensures
            request.path == STREAM_SCREENSHOT_PATH,
            request.message == (ImageFormat {
                format: RGBA8888,
                width: STREAM_TARGET_WIDTH,
                height: STREAM_TARGET_HEIGHT,
                display: 0,
            }),
    {
        GrpcRequest {
            path: STREAM_SCREENSHOT_PATH,
            message: ImageFormat {
                format: RGBA8888,
                width: STREAM_TARGET_WIDTH,
                height: STREAM_TARGET_HEIGHT,
                display: 0,
            },
        }
    }

    /// Sends a touch event.  `pressure > 0` means finger down; `pressure = 0`
    /// lifts the finger.
    pub fn send_touch(&self, x: i32, y: i32, identifier: i32, pressure: i32) -> (request:
        GrpcRequest<TouchEvent>)
        ensures
            request.path == SEND_TOUCH_PATH,
            request.message.touches@ == seq![Touch { x, y, identifier, pressure }],
            request.message.display == 0,
    {
        GrpcRequest {
            path: SEND_TOUCH_PATH,
            message: TouchEvent { touches: vec![Touch { x, y, identifier, pressure }], display: 0 },
        }
    }

    /// Sends a mouse event.  `buttons = 1` means the left button is pressed.
    pub fn send_mouse(&self, x: i32, y: i32, buttons: i32) -> (request: GrpcRequest<MouseEvent>)
        ensures
            request.path == SEND_MOUSE_PATH,
            request.message == (MouseEvent { x, y, buttons, display: 0 }),
    {
        GrpcRequest { path: SEND_MOUSE_PATH, message: MouseEvent { x, y, buttons, display: 0 } }
    }

    /// Sends a key press using a W3C key string (e.g. `"GoHome"`, `"GoBack"`).
    pub fn send_key(&self, key: String) -> (request: GrpcRequest<KeyboardEvent>)
        ensures
            request.path == SEND_KEY_PATH,
            request.message.code_type == 0,
            request.message.event_type == KEYPRESS,
            request.message.key_code == 0,
            request.message.key == key,
            request.message.text@ == Seq::<char>::empty(),
    {
        GrpcRequest {
            path: SEND_KEY_PATH,
            message: KeyboardEvent { event_type: KEYPRESS, key, ..Default::default() },
        }
    }
}

impl ConnectTask {
    /// The attempt number lies within the allowed attempts.
    pub open spec fn wf(self) -> bool {
        1 <= self.attempt <= self.max_attempts
    }

    /// The task after a failed attempt, and what follows.
    pub open spec fn failure_step(self) -> (ConnectTask, RetryDecision) {
        if self.attempt < self.max_attempts {
            (
                ConnectTask { attempt: (self.attempt + 1) as usize, ..self },
                RetryDecision::RetryAfterDelay,
            )
        } else {
            (
                self,
                RetryDecision::GiveUp(
                    ConnectError::Exhausted {
                        grpc_port: self.client.grpc_port,
                        attempt: self.attempt,
                        max_attempts: self.max_attempts,
                    },
                ),
            )
        }
    }

    /// The task after `failures` failed attempts.
    pub open spec fn after_failures(self, failures: nat) -> ConnectTask
        decreases failures,
    {
        if failures == 0 {
            self
        } else {
            self.after_failures((failures - 1) as nat).failure_step().0
        }
    }

    /// Decides what follows when the present attempt fails.
    pub fn attempt_failed(&mut self) -> (decision: RetryDecision)
        requires
            old(self).wf(),
        ensures
            final(self).wf(),
            (*final(self), decision) == old(self).failure_step(),
    {
        if self.attempt < self.max_attempts {
            self.attempt = self.attempt + 1;
            RetryDecision::RetryAfterDelay
        } else {
            RetryDecision::GiveUp(
                ConnectError::Exhausted {
                    grpc_port: self.client.grpc_port,
                    attempt: self.attempt,
                    max_attempts: self.max_attempts,
                },
            )
        }
    }
}

/// Every emulator is reached at its port on the loopback address.
pub proof fn lemma_clients_use_the_loopback(client: EmulatorClient, grpc_port: u16)
    ensures
        loopback_endpoint(grpc_port) == "http://127.0.0.1:"@ + text::decimal(grpc_port as nat),
        client.is_for(grpc_port) <==> client.grpc_port == grpc_port && client.endpoint@
            == "http://127.0.0.1:"@ + text::decimal(grpc_port as nat),
{
}

/// The errors of several attempts say what the error of a single one says, and then which attempt
/// failed or how many were allowed.
pub proof fn lemma_connect_error_texts(grpc_port: u16, attempt: usize, max_attempts: usize)
    ensures
        ({
            let refused = connect_error_text(ConnectError::Refused { grpc_port });
            &&& refused == "failed to connect to emulator gRPC server on port "@ + text::decimal(
                grpc_port as nat,
            )
            &&& connect_error_text(ConnectError::Exhausted { grpc_port, attempt, max_attempts })
                == refused + (" (attempt "@ + text::decimal(attempt as nat) + "/"@ + text::decimal(
                max_attempts as nat,
            ) + ")"@)
            &&& connect_error_text(ConnectError::NoAttempts { grpc_port, max_attempts }) == refused
                + (" after "@ + text::decimal(max_attempts as nat) + " attempts"@)
        }),
        connect_error_text(ConnectError::InvalidEndpoint) == "invalid gRPC endpoint"@,
{
    let refused = connect_error_text(ConnectError::Refused { grpc_port });
    assert(connect_error_text(ConnectError::Exhausted { grpc_port, attempt, max_attempts })
        =~= refused + (" (attempt "@ + text::decimal(attempt as nat) + "/"@ + text::decimal(
        max_attempts as nat,
    ) + ")"@));
    assert(connect_error_text(ConnectError::NoAttempts { grpc_port, max_attempts }) =~= refused + (
    " after "@ + text::decimal(max_attempts as nat) + " attempts"@));
}

/// A server that never answers is tried exactly `max_attempts` times: each failure before the last
/// is followed by another attempt, and the last one is reported.
pub proof fn lemma_every_attempt_is_made(task: ConnectTask, failures: nat)
    requires
        task.wf(),
        task.attempt == 1,
        failures < task.max_attempts,
    ensures
        task.after_failures(failures) == (ConnectTask {
            attempt: (failures + 1) as usize,
            ..task
        }),
        task.after_failures(failures).failure_step().1 == if failures + 1 < task.max_attempts {
            RetryDecision::RetryAfterDelay
        } else {
            RetryDecision::GiveUp(
                ConnectError::Exhausted {
                    grpc_port: task.client.grpc_port,
                    attempt: task.max_attempts,
                    max_attempts: task.max_attempts,
                },
            )
        },
    decreases failures,
{
    if failures > 0 {
        lemma_every_attempt_is_made(task, (failures - 1) as nat);
    }
}

} // verus!
