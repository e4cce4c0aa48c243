//! The live display of one emulator: the frame it shows, the mouse and key input it sends.
use crate::emulator_client::{ConnectError, ConnectTask, EmulatorClient, GrpcRequest, KeyboardEvent, MouseEvent, RgbaFrame, StreamAction, StreamEvent};
use crate::keys::{key_for_emulator, Keystroke};
use vstd::prelude::*;

verus! {

/// How often the display tries to reach a server that does not answer.
pub const CONNECT_ATTEMPTS: usize = 30;

/// How long it waits between two attempts.
pub const CONNECT_RETRY_DELAY_SECS: u64 = 1;

/// How many frames may wait to be drawn.
pub const FRAME_QUEUE_CAPACITY: usize = 2;

/// How many inputs may wait to be sent.
pub const INPUT_QUEUE_CAPACITY: usize = 256;

/// The widest display before the device's own width is known, in logical pixels.
pub const DEFAULT_MAX_WIDTH: u32 = 480;

/// The highest display before the device's own height is known, in logical pixels.
pub const DEFAULT_MAX_HEIGHT: u32 = 960;

/// The `buttons` of a mouse event with the left button down.
pub const LEFT_BUTTON: i32 = 1;

/// The `buttons` of a mouse event with no button down.
pub const NO_BUTTON: i32 = 0;

/// An input on its way to the emulator.
#[derive(Clone, Debug, PartialEq)]
pub enum EmulatorInputEvent {
    Mouse { x: i32, y: i32, buttons: i32 },
    Key { key: String },
}

// ---------------------------------------------------------------------------------------------
// Pictures
// ---------------------------------------------------------------------------------------------

/// A picture to draw: rows of four-byte pixels in BGRA order, from the top left.
#[derive(Clone, Debug, PartialEq)]
pub struct RenderFrame {
    pub width: u32,
    pub height: u32,
    pub pixels: Vec<u8>,
}

/// Whether a buffer of `len` bytes holds a picture of four-byte pixels.
pub open spec fn picture_fits(width: u32, height: u32, len: nat) -> bool {
    4 * width <= usize::MAX && 4 * width * height <= len
}

/// `bytes` with the first and the third byte of every four exchanged. What is left over behind the
/// last four stays.
pub open spec fn swap_red_and_blue(bytes: Seq<u8>) -> Seq<u8> {
    Seq::new(
        bytes.len(),
        |i: int|
            if i - i % 4 + 4 > bytes.len() {
                bytes[i]
            } else if i % 4 == 0 {
                bytes[i + 2]
            } else if i % 4 == 2 {
                bytes[i - 2]
            } else {
                bytes[i]
            },
    )
}

/// `image::ImageBuffer::from_raw` for RGBA pixels of one byte per channel: it takes the buffer
/// where the buffer is large enough for the picture, without touching its bytes, and refuses it
/// otherwise.
#[verifier::external_body]
fn image_from_raw(width: u32, height: u32, data: Vec<u8>) -> (raw: Option<Vec<u8>>)
    ensures
        match raw {
            Some(raw) => picture_fits(width, height, data@.len()) && raw@ == data@,
            None => !picture_fits(width, height, data@.len()),
        },
{
    image::ImageBuffer::<image::Rgba<u8>, Vec<u8>>::from_raw(width, height, data).map(
        |buffer| buffer.into_raw(),
    )
}

/// Whether the four bytes of one pixel in `after` are those in `before` with the first and the third
/// exchanged.
spec fn pixel_swapped(before: Seq<u8>, after: Seq<u8>, pixel: int) -> bool {
    &&& after[4 * pixel] == before[4 * pixel + 2]
    &&& after[4 * pixel + 1] == before[4 * pixel + 1]
    &&& after[4 * pixel + 2] == before[4 * pixel]
    &&& after[4 * pixel + 3] == before[4 * pixel + 3]
}

/// Exchanges the red and the blue channel of every pixel.
fn swap_channels(pixels: &mut Vec<u8>)
    ensures
        final(pixels)@ == swap_red_and_blue(old(pixels)@),
{
    let ghost before = pixels@;
    let ghost target = swap_red_and_blue(before);
    assert forall|pixel: int| 0 <= pixel && 4 * pixel + 4 <= before.len() implies #[trigger]
        pixel_swapped(before, target, pixel) by {
        lemma_pixels_become_bgra(before, pixel);
    }
    let count: usize = pixels.len() / 4;
    let mut done: usize = 0;
    while done < count
        invariant
            done <= count,
            4 * count <= before.len() <= usize::MAX,
            pixels@.len() == before.len() == target.len(),
            forall|pixel: int|
                0 <= pixel && 4 * pixel + 4 <= before.len() ==> #[trigger] pixel_swapped(
                    before,
                    target,
                    pixel,
                ),
            forall|j: int| 0 <= j < 4 * done ==> pixels@[j] == target[j],
            forall|j: int| 4 * done <= j < before.len() ==> pixels@[j] == before[j],
        decreases count - done,
    {
        let start: usize = 4 * done;
        assert(pixel_swapped(before, target, done as int));
        let first = pixels[start];
        let third = pixels[start + 2];
        pixels.set(start, third);
        pixels.set(start + 2, first);
        done += 1;
    }
}

/// Converts an `RgbaFrame` (RGBA8888, top-left origin) into a picture to draw. The
/// renderer expects BGRA byte order so R and B channels are swapped. A frame whose
/// buffer is too small for its size has no picture.
pub fn rgba_to_render_image(frame: RgbaFrame) -> (picture: Option<RenderFrame>)
    ensures
        match picture {
            Some(picture) => {
                &&& picture_fits(frame.width, frame.height, frame.data@.len())
                &&& picture.width == frame.width
                &&& picture.height == frame.height
                &&& picture.pixels@ == swap_red_and_blue(frame.data@)
            },
            None => !picture_fits(frame.width, frame.height, frame.data@.len()),
        },
{
    let width = frame.width;
    let height = frame.height;
    match image_from_raw(width, height, frame.data) {
        Some(mut pixels) => {
            swap_channels(&mut pixels);
            Some(RenderFrame { width, height, pixels })
        },
        None => None,
    }
}

/// Exchanging the channels twice gives back the bytes.
pub proof fn lemma_swap_is_its_own_inverse(bytes: Seq<u8>)
    ensures
        swap_red_and_blue(swap_red_and_blue(bytes)) == bytes,
{
}

/// Each pixel that was red, green, blue, alpha becomes blue, green, red, alpha.
pub proof fn lemma_pixels_become_bgra(bytes: Seq<u8>, pixel: int)
    requires
        0 <= pixel,
        4 * pixel + 4 <= bytes.len(),
    ensures
        swap_red_and_blue(bytes).len() == bytes.len(),
        swap_red_and_blue(bytes)[4 * pixel] == bytes[4 * pixel + 2],
        swap_red_and_blue(bytes)[4 * pixel + 1] == bytes[4 * pixel + 1],
        swap_red_and_blue(bytes)[4 * pixel + 2] == bytes[4 * pixel],
        swap_red_and_blue(bytes)[4 * pixel + 3] == bytes[4 * pixel + 3],
{
}

/// Bytes behind the last whole pixel stay as they are.
pub proof fn lemma_incomplete_pixel_stays(bytes: Seq<u8>, i: int)
    requires
        0 <= i < bytes.len(),
        bytes.len() - bytes.len() % 4 <= i,
    ensures
        swap_red_and_blue(bytes)[i] == bytes[i],
{
}

/// A buffer holds a picture when, and only when, it has four bytes for each pixel. A picture without
/// height needs none, as long as the length of its rows is a number of the machine.
pub proof fn lemma_picture_fits(width: u32, height: u32, buffer: Vec<u8>)
    ensures
        height > 0 ==> (picture_fits(width, height, buffer@.len()) <==> width * height * 4
            <= buffer@.len()),
        height == 0 ==> (picture_fits(width, height, buffer@.len()) <==> width * 4 <= usize::MAX),
{
    assert(buffer.len() == buffer@.len());
    if height > 0 {
        assert(4 * width <= width * height * 4 == 4 * width * height) by (nonlinear_arith)
            requires
                height > 0,
        ;
    } else {
        assert(4 * width * height == 0) by (nonlinear_arith)
            requires
                height == 0,
        ;
    }
}

/// Every frame that the stream forwards has a picture.
pub proof fn lemma_forwarded_frames_have_a_picture(event: StreamEvent)
    ensures
        crate::emulator_client::stream_reaction(event) matches StreamAction::Forward(frame)
            ==> picture_fits(frame.width, frame.height, frame.data@.len()),
{
    crate::emulator_client::lemma_forwarded_frames_are_not_empty(event);
    if let StreamAction::Forward(frame) = crate::emulator_client::stream_reaction(event) {
        assert(frame.data.len() == frame.data@.len());
        assert(4 * frame.width <= frame.width * frame.height * 4 == 4 * frame.width * frame.height)
            by (nonlinear_arith)
            requires
                frame.height > 0,
        ;
    }
}

// ---------------------------------------------------------------------------------------------
// The display
// ---------------------------------------------------------------------------------------------

/// The size of a picture.
#[derive(Clone, Copy, Debug, PartialEq, Eq)]
pub struct FrameSize {
    pub width: u32,
    pub height: u32,
}

/// Where an element was drawn, in logical pixels. Each number is the bit pattern of an IEEE 754
/// single.
#[derive(Clone, Copy, Debug, PartialEq, Eq)]
pub struct PixelBounds {
    pub x: u32,
    pub y: u32,
    pub width: u32,
    pub height: u32,
}

/// How far the display may grow in one direction.
#[derive(Clone, Copy, Debug, PartialEq, Eq)]
pub enum DisplayLimit {
    /// That many pixels of the device, at the scale of the window.
    Device(i32),
    /// That many logical pixels.
    Logical(u32),
}

/// What the display shows.
#[derive(Clone, Copy, Debug, PartialEq, Eq)]
pub enum DisplayContent {
    /// The latest frame.
    Frame(FrameSize),
    /// A note that the emulator has not sent a frame yet.
    Connecting,
}

impl DisplayContent {
    /// The note that stands in place of a frame.
    pub fn note(&self) -> (note: Option<&'static str>)
        ensures
            match (self, note) {
                (DisplayContent::Connecting, Some(note)) => note@
                    == "Connecting to emulator\u{2026}"@,
                (DisplayContent::Frame(_), None) => true,
                _ => false,
            },
    {
        match self {
            DisplayContent::Frame(_) => None,
            DisplayContent::Connecting => Some("Connecting to emulator\u{2026}"),
        }
    }
}

/// What to draw, and how large it may become.
#[derive(Clone, Copy, Debug, PartialEq, Eq)]
pub struct DisplayView {
    pub max_width: DisplayLimit,
    pub max_height: DisplayLimit,
    pub content: DisplayContent,
}

/// The live display of the emulator whose gRPC server listens at `grpc_port`.
#[derive(Clone, Debug)]
pub struct EmulatorDisplay {
    pub grpc_port: u16,
    /// The size of the frame being shown.
    pub current_frame: Option<FrameSize>,
    /// Native device dimensions derived from the most recent frame.
    pub device_width: i32,
    pub device_height: i32,
    /// Bounds of the rendered image element, captured each render cycle so
    /// that mouse events can be translated into device-pixel coordinates.
    pub rendered_bounds: Option<PixelBounds>,
    /// Whether the primary mouse button is currently held down.
    pub mouse_down: bool,
    /// Last sent mouse event to avoid flooding duplicate packets.
    pub last_mouse_event: Option<(i32, i32, i32)>,
}

/// A picture's width or height as a number of device pixels. One above `i32::MAX` wraps round.
pub open spec fn device_pixels(n: u32) -> i32 {
    n as i32
}

/// How far the display may grow along a side of the device.
pub open spec fn side_limit(side: i32, default: u32) -> DisplayLimit {
    if side > 0 {
        DisplayLimit::Device(side)
    } else {
        DisplayLimit::Logical(default)
    }
}

fn limit_for(side: i32, default: u32) -> (limit: DisplayLimit)
    ensures
        limit == side_limit(side, default),
{
    if side > 0 {
        DisplayLimit::Device(side)
    } else {
        DisplayLimit::Logical(default)
    }
}

impl EmulatorDisplay {
    /// Whether a mouse position can be translated: the display has been drawn and the device's size
    /// is known.
    pub open spec fn takes_mouse(self) -> bool {
        self.rendered_bounds is Some && self.device_width != 0 && self.device_height != 0
    }

    /// What the mouse at a device position is to send. An event that repeats the last one sent is
    /// not sent again.
    pub open spec fn mouse_event(self, x: i32, y: i32, buttons: i32) -> Option<EmulatorInputEvent> {
        if self.takes_mouse() && self.last_mouse_event != Some((x, y, buttons)) {
            Some(EmulatorInputEvent::Mouse { x, y, buttons })
        } else {
            None
        }
    }

    /// The display once an input was offered to the queue. Only a mouse event that the queue took
    /// counts as sent.
    pub open spec fn offered(self, input: EmulatorInputEvent, queued: bool) -> EmulatorDisplay {
        match input {
            EmulatorInputEvent::Mouse { x, y, buttons } if queued => EmulatorDisplay {
                last_mouse_event: Some((x, y, buttons)),
                ..self
            },
            _ => self,
        }
    }

    /// The display with the device's size taken from the frame being shown.
    pub open spec fn synced(self) -> EmulatorDisplay {
        match self.current_frame {
            Some(frame) => EmulatorDisplay {
                device_width: device_pixels(frame.width),
                device_height: device_pixels(frame.height),
                ..self
            },
            None => self,
        }
    }

    /// A display that waits for its first frame.
    pub fn new(grpc_port: u16) -> (display: EmulatorDisplay)
        ensures
            display == (EmulatorDisplay {
                grpc_port,
                current_frame: None,
                device_width: 0,
                device_height: 0,
                rendered_bounds: None,
                mouse_down: false,
                last_mouse_event: None,
            }),
    {
        EmulatorDisplay {
            grpc_port,
            current_frame: None,
            device_width: 0,
            device_height: 0,
            rendered_bounds: None,
            mouse_down: false,
            last_mouse_event: None,
        }
    }

    /// Begins to connect to the emulator, once for the frames and once for the input.
    pub fn connect(&self) -> (task: Result<ConnectTask, ConnectError>)
        ensures
            match task {
                Ok(task) => {
                    &&& crate::emulator_client::endpoint_accepted(
                        crate::emulator_client::loopback_endpoint(self.grpc_port),
                    )
                    &&& task.client.is_for(self.grpc_port)
                    &&& task.attempt == 1
                    &&& task.max_attempts == CONNECT_ATTEMPTS
                },
                Err(error) => !crate::emulator_client::endpoint_accepted(
                    crate::emulator_client::loopback_endpoint(self.grpc_port),
                ) && error == ConnectError::InvalidEndpoint,
            },
    {
        EmulatorClient::connect_with_retry(self.grpc_port, CONNECT_ATTEMPTS)
    }

    /// Takes a frame from the stream. A frame without a picture leaves the display as it is.
    pub fn receive_frame(&mut self, frame: RgbaFrame) -> (picture: Option<RenderFrame>)
        ensures
            match picture {
                Some(picture) => {
                    &&& picture_fits(frame.width, frame.height, frame.data@.len())
                    &&& picture.width == frame.width
                    &&& picture.height == frame.height
                    &&& picture.pixels@ == swap_red_and_blue(frame.data@)
                    &&& *final(self) == (EmulatorDisplay {
                        current_frame: Some(FrameSize { width: frame.width, height: frame.height }),
                        ..*old(self)
                    })
                },
                None => {
                    &&& !picture_fits(frame.width, frame.height, frame.data@.len())
                    &&& *final(self) == *old(self)
                },
            },
    {
        let picture = rgba_to_render_image(frame);
        if let Some(shown) = &picture {
            self.current_frame = Some(FrameSize { width: shown.width, height: shown.height });
        }
        picture
    }

    /// Draws the display: the device's size is taken from the latest frame first, so that positions
    /// stay accurate even after the device was rotated.
    pub fn render(&mut self) -> (view: DisplayView)
        ensures
            *final(self) == old(self).synced(),
            view == (DisplayView {
                max_width: side_limit(final(self).device_width, DEFAULT_MAX_WIDTH),
                max_height: side_limit(final(self).device_height, DEFAULT_MAX_HEIGHT),
                content: match old(self).current_frame {
                    Some(frame) => DisplayContent::Frame(frame),
                    None => DisplayContent::Connecting,
                },
            }),
    {
        let content = match self.current_frame {
            Some(frame) => {
                self.device_width = frame.width as i32;
                self.device_height = frame.height as i32;
                DisplayContent::Frame(frame)
            },
            None => DisplayContent::Connecting,
        };
        DisplayView {
            max_width: limit_for(self.device_width, DEFAULT_MAX_WIDTH),
            max_height: limit_for(self.device_height, DEFAULT_MAX_HEIGHT),
            content,
        }
    }

    /// Notes where the image was drawn; `bounds` are those of the first element, if there is one.
    pub fn children_prepainted(&mut self, bounds: Option<PixelBounds>)
        ensures
            *final(self) == (EmulatorDisplay {
                rendered_bounds: if bounds is Some {
                    bounds
                } else {
                    old(self).rendered_bounds
                },
                ..*old(self)
            }),
    {
        if bounds.is_some() {
            self.rendered_bounds = bounds;
        }
    }

    /// The device's width and height, where both are known to be positive. Only then has the device
    /// an aspect for its image to keep.
    pub fn device_size(&self) -> (size: Option<(i32, i32)>)
        ensures
            size == if self.device_width > 0 && self.device_height > 0 {
                Some((self.device_width, self.device_height))
            } else {
                None
            },
    {
        if self.device_width <= 0 || self.device_height <= 0 {
            None
        } else {
            Some((self.device_width, self.device_height))
        }
    }

    /// The last pixel of the device in each direction: the position that the far edge of the image
    /// stands for.
    pub fn last_device_pixel(&self) -> (pixel: (i32, i32))
        requires
            self.device_width > i32::MIN,
            self.device_height > i32::MIN,
        ensures
            pixel.0 == if self.device_width > 1 {
                self.device_width - 1
            } else {
                0
            },
            pixel.1 == if self.device_height > 1 {
                self.device_height - 1
            } else {
                0
            },
    {
        let x: i32 = self.device_width - 1;
        let y: i32 = self.device_height - 1;
        (if x > 0 { x } else { 0 }, if y > 0 { y } else { 0 })
    }

    /// The bounds against which a mouse position is translated, where it can be.
    pub fn mouse_bounds(&self) -> (bounds: Option<PixelBounds>)
        ensures
            bounds == if self.takes_mouse() {
                self.rendered_bounds
            } else {
                None
            },
    {
        if self.device_width == 0 || self.device_height == 0 {
            None
        } else {
            self.rendered_bounds
        }
    }

    /// What the mouse at the device position `(device_x, device_y)` is to send to the emulator.
    /// Whether the queue took it is reported by [`EmulatorDisplay::input_offered`].
    pub fn send_mouse_at(&self, device_x: i32, device_y: i32, buttons: i32) -> (event: Option<
        EmulatorInputEvent,
    >)
        ensures
            event == self.mouse_event(device_x, device_y, buttons),
    {
        if self.mouse_bounds().is_none() {
            return None;
        }
        if let Some((x, y, held)) = self.last_mouse_event {
            if x == device_x && y == device_y && held == buttons {
                return None;
            }
        }
        Some(EmulatorInputEvent::Mouse { x: device_x, y: device_y, buttons })
    }

    /// Notes whether the queue took an input. An input that was dropped leaves the display as it
    /// is, so that its repeat is sent.
    pub fn input_offered(&mut self, input: &EmulatorInputEvent, queued: bool)
        ensures
            *final(self) == old(self).offered(*input, queued),
    {
        if let EmulatorInputEvent::Mouse { x, y, buttons } = input {
            if queued {
                self.last_mouse_event = Some((*x, *y, *buttons));
            }
        }
    }

    /// The left button went down over `(device_x, device_y)`.
    pub fn mouse_pressed(&mut self, device_x: i32, device_y: i32) -> (event: Option<
        EmulatorInputEvent,
    >)
        ensures
            *final(self) == (EmulatorDisplay { mouse_down: true, ..*old(self) }),
            event == old(self).mouse_event(device_x, device_y, LEFT_BUTTON),
    {
        self.mouse_down = true;
        self.send_mouse_at(device_x, device_y, LEFT_BUTTON)
    }

    /// The mouse moved to `(device_x, device_y)`.
    pub fn mouse_moved(&self, device_x: i32, device_y: i32) -> (event: Option<EmulatorInputEvent>)
        ensures
            event == if self.mouse_down {
                self.mouse_event(device_x, device_y, LEFT_BUTTON)
            } else {
                None
            },
    {
        if self.mouse_down {
            self.send_mouse_at(device_x, device_y, LEFT_BUTTON)
        } else {
            None
        }
    }

    /// The left button went up over `(device_x, device_y)`.
    pub fn mouse_released(&mut self, device_x: i32, device_y: i32) -> (event: Option<
        EmulatorInputEvent,
    >)
        ensures
            *final(self) == (EmulatorDisplay { mouse_down: false, ..*old(self) }),
            event == old(self).mouse_event(device_x, device_y, NO_BUTTON),
    {
        self.mouse_down = false;
        self.send_mouse_at(device_x, device_y, NO_BUTTON)
    }

    /// What a key string sends to the emulator.
    pub fn send_key_input(&self, key: String) -> (sent: EmulatorInputEvent)
        ensures
            sent == (EmulatorInputEvent::Key { key }),
    {
        EmulatorInputEvent::Key { key }
    }

    /// What a key stroke sends to the emulator. A stroke that sends something goes no further in
    /// the editor.
    pub fn handle_key_down(&self, keystroke: &Keystroke) -> (sent: Option<EmulatorInputEvent>)
        ensures
            match sent {
                Some(EmulatorInputEvent::Key { key }) => crate::keys::emulator_key(keystroke@)
                    == Some(key@),
                Some(EmulatorInputEvent::Mouse { .. }) => false,
                None => crate::keys::emulator_key(keystroke@) is None,
            },
    {
        match key_for_emulator(keystroke) {
            Some(key) => Some(self.send_key_input(key)),
            None => None,
        }
    }
}

/// Drawing takes the device's size from the frame being shown, each side for itself, and changes
/// nothing else. Before the first frame the size stays as it is.
pub proof fn lemma_drawing_syncs_the_size(display: EmulatorDisplay)
    ensures
        display.current_frame is None ==> display.synced() == display,
        display.current_frame matches Some(frame) ==> {
            &&& display.synced().device_width == device_pixels(frame.width)
            &&& display.synced().device_height == device_pixels(frame.height)
        },
        display.synced() == (EmulatorDisplay {
            device_width: display.synced().device_width,
            device_height: display.synced().device_height,
            ..display
        }),
{
}

/// A number of pixels that a device can have stays as it is; a larger one wraps round to a negative
/// number.
pub proof fn lemma_device_pixels(n: u32)
    ensures
        n <= i32::MAX ==> device_pixels(n) == n,
        n > i32::MAX ==> device_pixels(n) == n - 0x1_0000_0000,
{
    assert(n > 0x7fff_ffff ==> n as i32 == n - 0x1_0000_0000) by (bit_vector);
}

/// A side of the device that is known limits the display; any other leaves it at the default.
pub proof fn lemma_side_limits(side: i32, default: u32)
    ensures
        side > 0 ==> side_limit(side, default) == DisplayLimit::Device(side),
        side <= 0 ==> side_limit(side, default) == DisplayLimit::Logical(default),
{
}

/// On a display that has been drawn with a frame of some size, the mouse sends its event, with its
/// position and buttons as they are, when, and only when, the event differs from the last one sent
/// in any of the three. On any other display the mouse sends nothing.
pub proof fn lemma_new_mouse_events_are_sent(display: EmulatorDisplay, x: i32, y: i32, buttons: i32)
    ensures
        ({
            let ready = display.rendered_bounds is Some && display.device_width != 0
                && display.device_height != 0;
            let repeats = display.last_mouse_event matches Some(last) && last.0 == x && last.1 == y
                && last.2 == buttons;
            &&& ready && !repeats ==> display.mouse_event(x, y, buttons) == Some(
                EmulatorInputEvent::Mouse { x, y, buttons },
            )
            &&& !(ready && !repeats) ==> display.mouse_event(x, y, buttons) is None
            &&& display.takes_mouse() == ready
        }),
{
}

/// The display remembers a mouse event exactly when the queue took it, and remembers it as it was;
/// nothing else about the display changes. Keys are not remembered.
pub proof fn lemma_queued_mouse_events_are_remembered(
    display: EmulatorDisplay,
    x: i32,
    y: i32,
    buttons: i32,
    key: String,
    queued: bool,
)
    ensures
        display.offered(EmulatorInputEvent::Mouse { x, y, buttons }, true).last_mouse_event == Some(
            (x, y, buttons),
        ),
        display.offered(EmulatorInputEvent::Mouse { x, y, buttons }, false) == display,
        display.offered(EmulatorInputEvent::Key { key }, queued) == display,
        display.offered(EmulatorInputEvent::Mouse { x, y, buttons }, queued) == (EmulatorDisplay {
            last_mouse_event: display.offered(
                EmulatorInputEvent::Mouse { x, y, buttons },
                queued,
            ).last_mouse_event,
            ..display
        }),
{
}

/// A mouse event that the queue took is not sent a second time in a row.
pub proof fn lemma_repeated_mouse_event_is_not_sent(
    display: EmulatorDisplay,
    x: i32,
    y: i32,
    buttons: i32,
)
    ensures
        display.mouse_event(x, y, buttons) matches Some(event) ==> display.offered(
            event,
            true,
        ).mouse_event(x, y, buttons) is None,
{
}

/// A mouse event that could not be queued does not count as sent: the display stays as it was, and
/// the same event is sent when it comes again.
pub proof fn lemma_dropped_mouse_event_is_sent_again(
    display: EmulatorDisplay,
    x: i32,
    y: i32,
    buttons: i32,
)
    ensures
        display.mouse_event(x, y, buttons) matches Some(event) ==> display.offered(event, false)
            == display && display.offered(event, false).mouse_event(x, y, buttons) == Some(event),
{
}

/// A mouse event, and whether the queue has room for it.
pub struct MouseAttempt {
    pub x: i32,
    pub y: i32,
    pub buttons: i32,
    pub queued: bool,
}

/// The display after a run of mouse events, and those of them that were sent, in order.
pub open spec fn mouse_run(display: EmulatorDisplay, attempts: Seq<MouseAttempt>) -> (
    EmulatorDisplay,
    Seq<(i32, i32, i32)>,
)
    decreases attempts.len(),
{
    if attempts.len() == 0 {
        (display, Seq::empty())
    } else {
        let (before, sent) = mouse_run(display, attempts.drop_last());
        let attempt = attempts.last();
        match before.mouse_event(attempt.x, attempt.y, attempt.buttons) {
            Some(event) => (
                before.offered(event, attempt.queued),
                if attempt.queued {
                    sent.push((attempt.x, attempt.y, attempt.buttons))
                } else {
                    sent
                },
            ),
            None => (before, sent),
        }
    }
}

/// No two events that are sent one after the other are the same, whatever run of mouse events
/// reaches the display and whichever of them the queue takes; and the event that the display
/// remembers is the last one sent.
pub proof fn lemma_no_duplicates_are_sent(display: EmulatorDisplay, attempts: Seq<MouseAttempt>)
    ensures
        ({
            let (after, sent) = mouse_run(display, attempts);
            &&& after == (EmulatorDisplay { last_mouse_event: after.last_mouse_event, ..display })
            &&& after.last_mouse_event == if sent.len() > 0 {
                Some(sent.last())
            } else {
                display.last_mouse_event
            }
            &&& forall|i: int| 0 < i < sent.len() ==> #[trigger] sent[i] != sent[i - 1]
            &&& sent.len() > 0 ==> display.last_mouse_event != Some(sent[0])
        }),
    decreases attempts.len(),
{
    if attempts.len() > 0 {
        lemma_no_duplicates_are_sent(display, attempts.drop_last());
    }
}

/// Before the display has been drawn with a frame of some size, the mouse sends nothing.
pub proof fn lemma_unready_display_sends_nothing(display: EmulatorDisplay, x: i32, y: i32, buttons: i32)
    requires
        !display.takes_mouse(),
    ensures
        display.mouse_event(x, y, buttons) is None,
{
}

// ---------------------------------------------------------------------------------------------
// The input link
// ---------------------------------------------------------------------------------------------

/// The sender of inputs: whether it has a connection, and the input that waits for one.
#[derive(Clone, Debug)]
pub struct InputLink {
    pub connected: bool,
    pub waiting: Option<EmulatorInputEvent>,
}

/// What happens to the sender of inputs.
pub enum LinkEvent {
    /// An attempt to connect ended.
    ConnectEnded { connected: bool },
    /// An input came in.
    Input(EmulatorInputEvent),
    /// Sending an input ended.
    SendEnded { sent: bool },
    /// No more inputs will come.
    Closed,
}

/// What the sender of inputs does next.
pub enum LinkAction {
    /// Wait for an input.
    Receive,
    /// Try once to connect.
    Connect,
    /// Send the input over the connection.
    Send(EmulatorInputEvent),
    /// Stop.
    Stop,
}

impl InputLink {
    /// Only a link without a connection holds an input back.
    pub open spec fn wf(self) -> bool {
        self.waiting is Some ==> !self.connected
    }

    /// What follows on each event. An input that finds no connection waits for one attempt to
    /// connect, and is dropped where that fails. A failed send loses the connection.
    pub open spec fn reaction(self, event: LinkEvent) -> (InputLink, LinkAction) {
        match event {
            LinkEvent::ConnectEnded { connected } => (
                InputLink { connected, waiting: None },
                match self.waiting {
                    Some(input) if connected => LinkAction::Send(input),
                    _ => LinkAction::Receive,
                },
            ),
            LinkEvent::Input(input) => if self.connected {
                (self, LinkAction::Send(input))
            } else {
                (InputLink { connected: false, waiting: Some(input) }, LinkAction::Connect)
            },
            LinkEvent::SendEnded { sent } => (
                InputLink { connected: self.connected && sent, ..self },
                LinkAction::Receive,
            ),
            LinkEvent::Closed => (self, LinkAction::Stop),
        }
    }

    /// The link before its first attempt to connect.
    pub fn new() -> (link: InputLink)
        ensures
            link == (InputLink { connected: false, waiting: None }),
            link.wf(),
    {
        InputLink { connected: false, waiting: None }
    }

    /// Decides what the sender of inputs does next.
    pub fn step(&mut self, event: LinkEvent) -> (action: LinkAction)
        requires
            old(self).wf(),
        ensures
            final(self).wf(),
            (*final(self), action) == old(self).reaction(event),
    {
        match event {
            LinkEvent::ConnectEnded { connected } => {
                self.connected = connected;
                match self.waiting.take() {
                    Some(input) => if connected {
                        LinkAction::Send(input)
                    } else {
                        LinkAction::Receive
                    },
                    None => LinkAction::Receive,
                }
            },
            LinkEvent::Input(input) => if self.connected {
                LinkAction::Send(input)
            } else {
                self.waiting = Some(input);
                LinkAction::Connect
            },
            LinkEvent::SendEnded { sent } => {
                self.connected = self.connected && sent;
                LinkAction::Receive
            },
            LinkEvent::Closed => LinkAction::Stop,
        }
    }
}

/// A link with a connection sends every input, mouse or key, as it is, and keeps its connection; it
/// keeps it as long as the sends succeed.
pub proof fn lemma_connected_link_sends_every_input(link: InputLink, input: EmulatorInputEvent)
    requires
        link.wf(),
        link.connected,
    ensures
        link.reaction(LinkEvent::Input(input)).1 == LinkAction::Send(input),
        link.reaction(LinkEvent::Input(input)).0.connected,
        link.reaction(LinkEvent::SendEnded { sent: true }).0.connected,
        link.reaction(LinkEvent::SendEnded { sent: true }).1 is Receive,
{
}

/// A link without a connection tries to connect for every input, mouse or key. Where that succeeds
/// the input is sent as it is and the connection is kept; where it fails the input is dropped and the
/// link waits for the next one.
pub proof fn lemma_unconnected_link_connects_for_every_input(
    link: InputLink,
    input: EmulatorInputEvent,
)
    requires
        link.wf(),
        !link.connected,
    ensures
        ({
            let (asked, action) = link.reaction(LinkEvent::Input(input));
            let (up, sends) = asked.reaction(LinkEvent::ConnectEnded { connected: true });
            let (down, drops) = asked.reaction(LinkEvent::ConnectEnded { connected: false });
            &&& action is Connect
            &&& sends == LinkAction::Send(input) && up.connected && up.waiting is None
            &&& drops is Receive && !down.connected && down.waiting is None
        }),
{
}

/// The first attempt to connect, made before any input, decides only whether there is a connection;
/// a failed send loses it; and a link stops when no more inputs will come, and only then.
pub proof fn lemma_link_connection_and_end(link: InputLink, connected: bool, event: LinkEvent)
    requires
        link.wf(),
    ensures
        link.waiting is None ==> link.reaction(LinkEvent::ConnectEnded { connected }) == (
            InputLink { connected, waiting: None },
            LinkAction::Receive,
        ),
        !link.reaction(LinkEvent::SendEnded { sent: false }).0.connected,
        link.reaction(LinkEvent::SendEnded { sent: false }).1 is Receive,
        link.reaction(event).1 is Stop <==> event is Closed,
{
}

/// What happened to one input: whether an attempt to connect for it succeeded, and whether sending
/// it did.
pub struct Delivery {
    pub input: EmulatorInputEvent,
    pub connects: bool,
    pub sends: bool,
}

/// The link after one input was dealt with, and whether the input was handed to the connection.
pub open spec fn deliver(link: InputLink, delivery: Delivery) -> (InputLink, Option<
    EmulatorInputEvent,
>) {
    let (asked, action) = link.reaction(LinkEvent::Input(delivery.input));
    let (ready, then) = if action is Connect {
        asked.reaction(LinkEvent::ConnectEnded { connected: delivery.connects })
    } else {
        (asked, action)
    };
    match then {
        LinkAction::Send(input) => (
            ready.reaction(LinkEvent::SendEnded { sent: delivery.sends }).0,
            Some(input),
        ),
        _ => (ready, None),
    }
}

/// The link after a run of inputs, and those that were handed to the connection, in order.
pub open spec fn delivery_run(link: InputLink, deliveries: Seq<Delivery>) -> (InputLink, Seq<
    EmulatorInputEvent,
>)
    decreases deliveries.len(),
{
    if deliveries.len() == 0 {
        (link, Seq::empty())
    } else {
        let (before, sent) = delivery_run(link, deliveries.drop_last());
        let (after, last) = deliver(before, deliveries.last());
        (
            after,
            match last {
                Some(input) => sent.push(input),
                None => sent,
            },
        )
    }
}

/// As long as every attempt to connect succeeds, every input is handed to the connection, each once
/// and in the order of the inputs, whichever sends fail.
pub proof fn lemma_inputs_are_delivered_in_order(link: InputLink, deliveries: Seq<Delivery>)
    requires
        link.wf(),
        link.waiting is None,
        forall|i: int| 0 <= i < deliveries.len() ==> (#[trigger] deliveries[i]).connects,
    ensures
        delivery_run(link, deliveries).1.len() == deliveries.len(),
        forall|i: int|
            0 <= i < deliveries.len() ==> #[trigger] delivery_run(link, deliveries).1[i]
                == deliveries[i].input,
        delivery_run(link, deliveries).0.waiting is None,
    decreases deliveries.len(),
{
    if deliveries.len() > 0 {
        let init = deliveries.drop_last();
        assert forall|i: int| 0 <= i < init.len() implies (#[trigger] init[i]).connects by {
            assert(init[i] == deliveries[i]);
        }
        lemma_inputs_are_delivered_in_order(link, init);
        assert(deliveries[deliveries.len() - 1].connects);
    }
}

/// Nothing is sent without a connection, and an input that is sent or dropped is not kept.
pub proof fn lemma_inputs_need_a_connection(link: InputLink, event: LinkEvent)
    requires
        link.wf(),
    ensures
        link.reaction(event).0.wf(),
        link.reaction(event).1 is Send ==> link.reaction(event).0.connected && link.reaction(
            event,
        ).0.waiting is None,
        link.reaction(event).1 is Connect ==> event is Input && link.reaction(event).0.waiting
            == Some(event->Input_0),
{
}

/// After a send that failed the next input is tried on a fresh connection: it is sent exactly when
/// the one attempt to connect succeeds, and dropped otherwise.
pub proof fn lemma_next_input_after_failed_send_reconnects(
    link: InputLink,
    input: EmulatorInputEvent,
    connected: bool,
)
    requires
        link.wf(),
    ensures
        ({
            let lost = link.reaction(LinkEvent::SendEnded { sent: false }).0;
            let (asked, action) = lost.reaction(LinkEvent::Input(input));
            let (ended, outcome) = asked.reaction(LinkEvent::ConnectEnded { connected });
            &&& action is Connect
            &&& outcome == if connected {
                LinkAction::Send(input)
            } else {
                LinkAction::Receive
            }
            &&& ended == (InputLink { connected, waiting: None })
        }),
{
}

/// The request that carries an input.
pub enum InputRequest {
    Mouse(GrpcRequest<MouseEvent>),
    Key(GrpcRequest<KeyboardEvent>),
}

/// The request that carries `input` to the emulator.
pub fn input_request(client: &EmulatorClient, input: EmulatorInputEvent) -> (request: InputRequest)
    ensures
        match (input, request) {
            (EmulatorInputEvent::Mouse { x, y, buttons }, InputRequest::Mouse(request)) => {
                &&& request.path == crate::emulator_client::SEND_MOUSE_PATH
                &&& request.message == (MouseEvent { x, y, buttons, display: 0 })
            },
            (EmulatorInputEvent::Key { key }, InputRequest::Key(request)) => {
                &&& request.path == crate::emulator_client::SEND_KEY_PATH
                &&& request.message.code_type == 0
                &&& request.message.event_type == crate::emulator_client::KEYPRESS
                &&& request.message.key_code == 0
                &&& request.message.key == key
                &&& request.message.text@ == Seq::<char>::empty()
            },
            _ => false,
        },
{
    match input {
        EmulatorInputEvent::Mouse { x, y, buttons } => InputRequest::Mouse(
            client.send_mouse(x, y, buttons),
        ),
        EmulatorInputEvent::Key { key } => InputRequest::Key(client.send_key(key)),
    }
}

} // verus!
