use android_emulator::display::{
    input_request, rgba_to_render_image, DisplayContent, DisplayLimit, EmulatorDisplay,
    EmulatorInputEvent, FrameSize, InputLink, InputRequest, LinkAction, LinkEvent, PixelBounds,
};
use android_emulator::emulator_client::{
    stream_step, EmulatorClient, Image, RgbaFrame, StreamAction, StreamEvent,
};
use android_emulator::keys::{Keystroke, Modifiers};

fn frame(width: u32, height: u32, data: Vec<u8>) -> RgbaFrame {
    RgbaFrame { width, height, data }
}

fn mouse(x: i32, y: i32, buttons: i32) -> EmulatorInputEvent {
    EmulatorInputEvent::Mouse { x, y, buttons }
}

const BOUNDS: PixelBounds = PixelBounds { x: 0, y: 0, width: 0x43f0_0000, height: 0x4470_0000 };

fn ready() -> EmulatorDisplay {
    let mut display = EmulatorDisplay::new(8554);
    display.receive_frame(frame(2, 1, vec![0; 8]));
    display.render();
    display.children_prepainted(Some(BOUNDS));
    display
}

/// Hands what the display sends to a queue that has room for it or has not.
fn offer(display: &mut EmulatorDisplay, event: Option<EmulatorInputEvent>, queued: bool) {
    display.input_offered(&event.expect("an event"), queued);
}

#[test]
fn pixels_become_bgra() {
    let picture = rgba_to_render_image(frame(2, 1, vec![1, 2, 3, 4, 5, 6, 7, 8])).unwrap();
    assert_eq!((picture.width, picture.height), (2, 1));
    assert_eq!(picture.pixels, vec![3, 2, 1, 4, 7, 6, 5, 8]);
}

#[test]
fn small_buffers_have_no_picture() {
    assert_eq!(rgba_to_render_image(frame(2, 1, vec![0; 7])), None);
    assert_eq!(rgba_to_render_image(frame(u32::MAX, u32::MAX, vec![0; 8])), None);
}

#[test]
fn bytes_behind_the_picture_are_kept() {
    let picture = rgba_to_render_image(frame(1, 1, (1..=10).collect())).unwrap();
    assert_eq!(picture.pixels, vec![3, 2, 1, 4, 7, 6, 5, 8, 9, 10]);
    let twice = rgba_to_render_image(frame(1, 1, picture.pixels)).unwrap();
    assert_eq!(twice.pixels, (1..=10).collect::<Vec<u8>>());
}

#[test]
fn new_display_waits_for_a_frame() {
    let mut display = EmulatorDisplay::new(8554);
    assert_eq!(display.grpc_port, 8554);
    let view = display.render();
    assert_eq!(view.content, DisplayContent::Connecting);
    assert_eq!(view.content.note(), Some("Connecting to emulator\u{2026}"));
    assert_eq!(display.device_size(), None);
    assert_eq!(view.max_width, DisplayLimit::Logical(480));
    assert_eq!(view.max_height, DisplayLimit::Logical(960));
    let task = display.connect().unwrap();
    assert_eq!((task.client.grpc_port, task.attempt, task.max_attempts), (8554, 1, 30));
}

#[test]
fn frames_set_the_device_size() {
    let mut display = EmulatorDisplay::new(1);
    assert_eq!(display.receive_frame(frame(2, 2, vec![0; 15])), None);
    assert_eq!(display.current_frame, None);
    assert!(display.receive_frame(frame(2, 1, vec![0; 8])).is_some());
    assert_eq!((display.device_width, display.device_height), (0, 0));
    let view = display.render();
    assert_eq!((display.device_width, display.device_height), (2, 1));
    assert_eq!(view.content, DisplayContent::Frame(FrameSize { width: 2, height: 1 }));
    assert_eq!(view.content.note(), None);
    assert_eq!(display.device_size(), Some((2, 1)));
    assert_eq!(view.max_width, DisplayLimit::Device(2));
    assert_eq!(view.max_height, DisplayLimit::Device(1));
    assert_eq!(display.last_device_pixel(), (1, 0));
    assert_eq!(EmulatorDisplay::new(1).last_device_pixel(), (0, 0));
}

#[test]
fn mouse_needs_bounds_and_a_frame() {
    let mut display = EmulatorDisplay::new(1);
    assert_eq!(display.mouse_pressed(0, 0), None);
    display.children_prepainted(Some(BOUNDS));
    display.children_prepainted(None);
    assert_eq!(display.rendered_bounds, Some(BOUNDS));
    assert_eq!(display.mouse_bounds(), None);
    assert_eq!(display.mouse_pressed(0, 0), None);
    assert_eq!(display.last_mouse_event, None);
    display.receive_frame(frame(1, 1, vec![0; 4]));
    display.render();
    assert_eq!(display.mouse_bounds(), Some(BOUNDS));
    assert_eq!(display.mouse_pressed(0, 0), Some(mouse(0, 0, 1)));
}

#[test]
fn repeated_mouse_events_are_not_sent() {
    let mut display = ready();
    let press = display.send_mouse_at(1, 0, 1);
    assert_eq!(press, Some(mouse(1, 0, 1)));
    offer(&mut display, press, true);
    assert_eq!(display.last_mouse_event, Some((1, 0, 1)));
    assert_eq!(display.send_mouse_at(1, 0, 1), None);
    let release = display.send_mouse_at(1, 0, 0);
    assert_eq!(release, Some(mouse(1, 0, 0)));
    offer(&mut display, release, true);
    assert_eq!(display.send_mouse_at(1, 0, 1), Some(mouse(1, 0, 1)));
}

#[test]
fn dropped_mouse_events_are_sent_again() {
    let mut display = ready();
    let press = display.mouse_pressed(1, 0);
    offer(&mut display, press, true);
    let release = display.mouse_released(1, 0);
    assert_eq!(release, Some(mouse(1, 0, 0)));
    offer(&mut display, release, false);
    assert_eq!(display.last_mouse_event, Some((1, 0, 1)));
    assert!(!display.mouse_down);
    assert_eq!(display.mouse_released(1, 0), Some(mouse(1, 0, 0)));
}

#[test]
fn keys_are_no_mouse_events() {
    let mut display = ready();
    let key = display.send_key_input("a".to_string());
    display.input_offered(&key, true);
    assert_eq!(display.last_mouse_event, None);
}

#[test]
fn forwarded_frames_have_a_picture() {
    let image = Image { format: None, width: 1, height: 2, image: vec![9; 8], seq: 0 };
    match stream_step(StreamEvent::Message(image)) {
        StreamAction::Forward(frame) => assert!(rgba_to_render_image(frame).is_some()),
        _ => panic!("a frame is forwarded"),
    }
}

#[test]
fn dragging_sends_moves() {
    let mut display = ready();
    assert_eq!(display.mouse_moved(0, 0), None);
    let press = display.mouse_pressed(0, 0);
    assert_eq!(press, Some(mouse(0, 0, 1)));
    offer(&mut display, press, true);
    assert_eq!(display.mouse_moved(0, 0), None);
    let drag = display.mouse_moved(1, 0);
    assert_eq!(drag, Some(mouse(1, 0, 1)));
    offer(&mut display, drag, true);
    let release = display.mouse_released(1, 0);
    assert_eq!(release, Some(mouse(1, 0, 0)));
    offer(&mut display, release, true);
    assert_eq!(display.mouse_moved(0, 0), None);
}

#[test]
fn keys_are_sent_under_their_key_strings() {
    let none = Modifiers { control: false, alt: false, shift: false, platform: false, function: false };
    let display = EmulatorDisplay::new(1);
    let enter = Keystroke { modifiers: none, key: "enter".to_string(), key_char: None };
    assert_eq!(
        display.handle_key_down(&enter),
        Some(EmulatorInputEvent::Key { key: "Enter".to_string() })
    );
    let unknown = Keystroke { modifiers: none, key: "insert".to_string(), key_char: None };
    assert_eq!(display.handle_key_down(&unknown), None);
}

#[test]
fn inputs_wait_for_one_attempt_to_connect() {
    let mut link = InputLink::new();
    assert!(matches!(link.step(LinkEvent::ConnectEnded { connected: false }), LinkAction::Receive));
    assert!(matches!(link.step(LinkEvent::Input(mouse(1, 2, 1))), LinkAction::Connect));
    assert!(matches!(link.step(LinkEvent::ConnectEnded { connected: false }), LinkAction::Receive));
    assert_eq!(link.waiting, None);
    assert!(matches!(link.step(LinkEvent::Input(mouse(3, 4, 1))), LinkAction::Connect));
    match link.step(LinkEvent::ConnectEnded { connected: true }) {
        LinkAction::Send(input) => assert_eq!(input, mouse(3, 4, 1)),
        _ => panic!("the input is sent"),
    }
}

#[test]
fn failed_send_loses_the_connection() {
    let mut link = InputLink::new();
    link.step(LinkEvent::ConnectEnded { connected: true });
    assert!(matches!(link.step(LinkEvent::Input(mouse(1, 2, 1))), LinkAction::Send(_)));
    assert!(matches!(link.step(LinkEvent::SendEnded { sent: true }), LinkAction::Receive));
    assert!(matches!(link.step(LinkEvent::Input(mouse(1, 2, 0))), LinkAction::Send(_)));
    assert!(matches!(link.step(LinkEvent::SendEnded { sent: false }), LinkAction::Receive));
    assert!(matches!(link.step(LinkEvent::Input(mouse(5, 6, 1))), LinkAction::Connect));
    assert!(matches!(link.step(LinkEvent::Closed), LinkAction::Stop));
}

#[test]
fn inputs_become_requests() {
    let client = EmulatorClient::connect(1).unwrap();
    match input_request(&client, mouse(1, 2, 1)) {
        InputRequest::Mouse(request) => {
            assert_eq!((request.message.x, request.message.y, request.message.buttons), (1, 2, 1))
        }
        InputRequest::Key(_) => panic!("a mouse request"),
    }
    match input_request(&client, EmulatorInputEvent::Key { key: "a".to_string() }) {
        InputRequest::Key(request) => assert_eq!(request.message.key, "a"),
        InputRequest::Mouse(_) => panic!("a key request"),
    }
}
