use android_emulator::emulator_client::{
    decode_frame, frame_dimensions, stream_step, ConnectError, EmulatorClient, Empty, Image,
    ImageFormat, KeyboardEvent, MouseEvent, RetryDecision, RgbaFrame, StreamAction, StreamEvent,
    Touch, MAX_SCREENSHOT_MESSAGE_BYTES,
};

fn format(width: u32, height: u32) -> Option<ImageFormat> {
    Some(ImageFormat { format: 1, width, height, display: 0 })
}

fn image(format: Option<ImageFormat>, width: u32, height: u32, bytes: usize) -> Image {
    Image { format, width, height, image: vec![7; bytes], seq: 1 }
}

#[test]
fn nested_dimensions_come_first() {
    assert_eq!(frame_dimensions(&image(format(3, 4), 1, 2, 0)), (3, 4));
    assert_eq!(frame_dimensions(&image(format(0, 4), 1, 2, 0)), (1, 2));
    assert_eq!(frame_dimensions(&image(format(3, 0), 1, 2, 0)), (1, 2));
    assert_eq!(frame_dimensions(&image(None, 1, 2, 0)), (1, 2));
}

#[test]
fn images_without_area_or_bytes_have_no_frame() {
    assert_eq!(decode_frame(image(format(0, 0), 0, 2, 8)), None);
    assert_eq!(decode_frame(image(None, 1, 0, 8)), None);
    assert_eq!(decode_frame(image(format(1, 2), 0, 0, 0)), None);
    assert_eq!(
        decode_frame(image(format(1, 2), 0, 0, 8)),
        Some(RgbaFrame { width: 1, height: 2, data: vec![7; 8] })
    );
}

#[test]
fn frames_have_four_bytes_for_each_pixel() {
    for bytes in [1, 4, 23, 25, 48] {
        assert_eq!(decode_frame(image(format(2, 3), 0, 0, bytes)), None);
    }
    assert_eq!(decode_frame(image(None, u32::MAX, u32::MAX, 4)), None);
    // 65536 * 65536 * 4 is 0 in 32 bits, 2^31 * 2^31 * 4 in 64 bits.
    assert_eq!(decode_frame(image(None, 65536, 65536, 0)), None);
    assert_eq!(decode_frame(image(None, 1 << 31, 1 << 31, 0)), None);
    assert_eq!(
        decode_frame(image(format(2, 3), 0, 0, 24)),
        Some(RgbaFrame { width: 2, height: 3, data: vec![7; 24] })
    );
}

#[test]
fn stream_forwards_frames_until_it_ends() {
    match stream_step(StreamEvent::Message(image(format(1, 1), 0, 0, 4))) {
        StreamAction::Forward(frame) => assert_eq!(frame.data, vec![7; 4]),
        _ => panic!("a frame is forwarded"),
    }
    assert!(matches!(stream_step(StreamEvent::Message(image(None, 0, 0, 4))), StreamAction::ReadNext));
    assert!(matches!(
        stream_step(StreamEvent::Message(image(format(1, 1), 0, 0, 1))),
        StreamAction::ReadNext
    ));
    assert!(matches!(stream_step(StreamEvent::Delivered), StreamAction::ReadNext));
    assert!(matches!(stream_step(StreamEvent::Ended), StreamAction::Finish));
    assert!(matches!(stream_step(StreamEvent::ReceiverClosed), StreamAction::Finish));
    assert!(matches!(stream_step(StreamEvent::ReadFailed), StreamAction::Fail));
}

/// Streams `events` until streaming returns: the widths of the forwarded frames, and whether it
/// ended well.
fn run_stream(events: Vec<StreamEvent>) -> (Vec<u32>, Option<bool>) {
    let mut widths = Vec::new();
    for event in events {
        match stream_step(event) {
            StreamAction::Forward(frame) => widths.push(frame.width),
            StreamAction::ReadNext => {}
            StreamAction::Finish => return (widths, Some(true)),
            StreamAction::Fail => return (widths, Some(false)),
        }
    }
    (widths, None)
}

#[test]
fn streaming_stops_at_the_first_end() {
    let message = |width: u32| StreamEvent::Message(image(format(width, 1), 0, 0, 4 * width as usize));
    let start = || vec![message(1), StreamEvent::Delivered, StreamEvent::Message(image(None, 0, 0, 0)), message(2)];
    assert_eq!(run_stream(start()), (vec![1, 2], None));
    for (end, well) in [
        (StreamEvent::Ended, true),
        (StreamEvent::ReceiverClosed, true),
        (StreamEvent::ReadFailed, false),
    ] {
        let mut events = start();
        events.extend([end, message(3), StreamEvent::ReadFailed, StreamEvent::Ended]);
        assert_eq!(run_stream(events), (vec![1, 2], Some(well)));
    }
}

#[test]
fn loopback_addresses_are_endpoints() {
    for port in [0u16, 1, 8554, 65535] {
        let client = EmulatorClient::connect(port).expect("a valid endpoint");
        assert_eq!(client.grpc_port, port);
        assert_eq!(client.endpoint, format!("http://127.0.0.1:{}", port));
    }
}

#[test]
fn refused_endpoint_is_an_error() {
    assert_eq!(EmulatorClient::at_port(1, false).err(), Some(ConnectError::InvalidEndpoint));
    assert_eq!(EmulatorClient::first_attempt(1, 3, false).err(), Some(ConnectError::InvalidEndpoint));
    assert_eq!(
        EmulatorClient::first_attempt(1, 0, false).err(),
        Some(ConnectError::NoAttempts { grpc_port: 1, max_attempts: 0 })
    );
}

#[test]
fn single_attempt() {
    let client = EmulatorClient::connect(8554).unwrap();
    assert_eq!(client.clone().connected(true).unwrap().endpoint, client.endpoint);
    assert_eq!(client.connected(false).err(), Some(ConnectError::Refused { grpc_port: 8554 }));
}

#[test]
fn every_attempt_is_made() {
    let mut task = EmulatorClient::connect_with_retry(8554, 3).unwrap();
    assert_eq!(task.attempt, 1);
    assert_eq!(task.attempt_failed(), RetryDecision::RetryAfterDelay);
    assert_eq!(task.attempt_failed(), RetryDecision::RetryAfterDelay);
    assert_eq!(
        task.attempt_failed(),
        RetryDecision::GiveUp(ConnectError::Exhausted { grpc_port: 8554, attempt: 3, max_attempts: 3 })
    );
    assert_eq!(
        EmulatorClient::connect_with_retry(8554, 0).err(),
        Some(ConnectError::NoAttempts { grpc_port: 8554, max_attempts: 0 })
    );
}

#[test]
fn error_messages() {
    let text = |error: ConnectError| error.message();
    assert_eq!(text(ConnectError::InvalidEndpoint), "invalid gRPC endpoint");
    assert_eq!(
        text(ConnectError::Refused { grpc_port: 8554 }),
        "failed to connect to emulator gRPC server on port 8554"
    );
    assert_eq!(
        text(ConnectError::Exhausted { grpc_port: 8554, attempt: 30, max_attempts: 30 }),
        "failed to connect to emulator gRPC server on port 8554 (attempt 30/30)"
    );
    assert_eq!(
        text(ConnectError::NoAttempts { grpc_port: 8554, max_attempts: 0 }),
        "failed to connect to emulator gRPC server on port 8554 after 0 attempts"
    );
}

#[test]
fn stream_is_asked_for_at_a_smaller_size() {
    let request = EmulatorClient::connect(1).unwrap().stream_frames();
    assert_eq!(request.path, "/android.emulation.control.EmulatorController/streamScreenshot");
    assert_eq!(request.message, ImageFormat { format: 1, width: 720, height: 1280, display: 0 });
    assert_eq!(MAX_SCREENSHOT_MESSAGE_BYTES, 32 * 1024 * 1024);
}

#[test]
fn touch_request() {
    let request = EmulatorClient::connect(1).unwrap().send_touch(10, -20, 3, 4);
    assert_eq!(request.path, "/android.emulation.control.EmulatorController/sendTouch");
    assert_eq!(request.message.touches, vec![Touch { x: 10, y: -20, identifier: 3, pressure: 4 }]);
    assert_eq!(request.message.display, 0);
}

#[test]
fn mouse_request() {
    let request = EmulatorClient::connect(1).unwrap().send_mouse(10, 20, 1);
    assert_eq!(request.path, "/android.emulation.control.EmulatorController/sendMouse");
    assert_eq!(request.message, MouseEvent { x: 10, y: 20, buttons: 1, display: 0 });
}

#[test]
fn key_request() {
    let request = EmulatorClient::connect(1).unwrap().send_key("GoHome".to_string());
    assert_eq!(request.path, "/android.emulation.control.EmulatorController/sendKey");
    assert_eq!(
        request.message,
        KeyboardEvent {
            code_type: 0,
            event_type: 2,
            key_code: 0,
            key: "GoHome".to_string(),
            text: String::new()
        }
    );
    assert_eq!(KeyboardEvent::default().event_type, 0);
    assert_eq!(Empty {}, Empty::default());
}
