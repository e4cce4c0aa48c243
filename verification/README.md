# android_emulator

Android emulators in an editor panel. The panel lists the virtual devices of an Android SDK,
launches and stops their emulators, and shows the live screen of one of them, with mouse and key
input going to the device over gRPC.

## Layout

- `src/` is the library. It decides everything that can be decided from plain values, and Verus
  proves each function against its contract:
  - `text`: lines, words, trimming and decimal numbers
  - `discovery`: what `avdmanager list avd` and `adb devices` report
  - `sdk`: where the SDK and its tools lie
  - `keys`: which key strokes reach the emulator
  - `emulator_client`: the gRPC messages and requests, connection attempts, the frame stream
  - `display`: frames, mouse and key input, the sender of inputs
  - `android_emulator_panel`: the panel's state and what it shows
- `app/` runs the processes, sockets and tasks, and draws. It performs what the library decides and
  hands back what happened.
- `tests/` runs the library on concrete values.

## What is believed without proof

- `String::push` appends one character.
- `String::from_utf8_lossy` depends on its bytes alone, and decodes valid UTF-8 as it stands.
- `tonic::transport::Channel::from_shared` accepts or refuses an address by its text alone.
- `image::ImageBuffer::from_raw` takes a buffer that is large enough for its picture, and no other.
